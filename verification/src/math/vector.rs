//! Vectors of two, three and four components over any component type.
//!
//! The arithmetic is component by component and goes through the component
//! type's own operators. What an operator needs of its operands (for an
//! integer type: that the result fits) is asked of each pair of components,
//! and what it gives is known where the component type's operator obeys its
//! specification, as those of the integer types do.

use vstd::prelude::*;
use vstd::std_specs::cmp::OrdSpec;
use vstd::std_specs::ops::{
    AddSpec, AddSpecImpl, DivSpec, DivSpecImpl, MulSpec, MulSpecImpl, SubSpec, SubSpecImpl,
};
use std::cmp::Ordering;
use std::ops::{Add, Div, Index, IndexMut, Mul, Sub};

verus! {

/// A vector of two components.
#[derive(Debug, Clone, Copy, PartialEq, Eq)]
pub struct Vector2<T> {
    pub x: T,
    pub y: T,
}

/// A vector of three components.
#[derive(Debug, Clone, Copy, PartialEq, Eq)]
pub struct Vector3<T> {
    pub x: T,
    pub y: T,
    pub z: T,
}

/// A vector of four components.
#[derive(Debug, Clone, Copy, PartialEq, Eq)]
pub struct Vector4<T> {
    pub x: T,
    pub y: T,
    pub z: T,
    pub w: T,
}

/// The first of two values unless the second is strictly less: what
/// `std::cmp::min` returns.
pub open spec fn lesser<T: Ord>(a: T, b: T) -> T {
    if b.cmp_spec(&a) == Ordering::Less {
        b
    } else {
        a
    }
}

/// The second of two values unless it is strictly less than the first: what
/// `std::cmp::max` returns.
pub open spec fn greater<T: Ord>(a: T, b: T) -> T {
    if b.cmp_spec(&a) == Ordering::Less {
        a
    } else {
        b
    }
}

impl<T> Vector2<T> {
    /// The vector with the given components.
    pub fn new(x: T, y: T) -> (v: Self)
        ensures
            v == (Vector2 { x, y }),
    {
        Self { x, y }
    }

    /// The component at a position; the last one for any position past it.
    pub open spec fn component(self, index: usize) -> T {
        if index == 0 {
            self.x
        } else {
            self.y
        }
    }

    /// The vector with the component at a position replaced.
    pub open spec fn with_component(self, index: usize, value: T) -> Self {
        if index == 0 {
            Vector2 { x: value, ..self }
        } else {
            Vector2 { y: value, ..self }
        }
    }
}

impl<T: Add<Output = T>> AddSpecImpl for Vector2<T> {
    open spec fn obeys_add_spec() -> bool {
        T::obeys_add_spec()
    }

    open spec fn add_req(self, rhs: Self) -> bool {
        self.x.add_req(rhs.x) && self.y.add_req(rhs.y)
    }

    open spec fn add_spec(self, rhs: Self) -> Self {
        Vector2 { x: self.x.add_spec(rhs.x), y: self.y.add_spec(rhs.y) }
    }
}

impl<T: Add<Output = T>> Add for Vector2<T> {
    type Output = Self;

    /// The sum, component by component. Asks of each pair of operands what the
    /// component type's own operator asks of it.
    fn add(self, rhs: Self) -> (r: Self)
        ensures
            T::obeys_add_spec() ==> r == (Vector2 {
                x: self.x.add_spec(rhs.x),
                y: self.y.add_spec(rhs.y),
            }),
    {
        Self { x: self.x + rhs.x, y: self.y + rhs.y }
    }
}

impl<T: Sub<Output = T>> SubSpecImpl for Vector2<T> {
    open spec fn obeys_sub_spec() -> bool {
        T::obeys_sub_spec()
    }

    open spec fn sub_req(self, rhs: Self) -> bool {
        self.x.sub_req(rhs.x) && self.y.sub_req(rhs.y)
    }

    open spec fn sub_spec(self, rhs: Self) -> Self {
        Vector2 { x: self.x.sub_spec(rhs.x), y: self.y.sub_spec(rhs.y) }
    }
}

impl<T: Sub<Output = T>> Sub for Vector2<T> {
    type Output = Self;

    /// The difference, component by component. Asks of each pair of operands what the
    /// component type's own operator asks of it.
    fn sub(self, rhs: Self) -> (r: Self)
        ensures
            T::obeys_sub_spec() ==> r == (Vector2 {
                x: self.x.sub_spec(rhs.x),
                y: self.y.sub_spec(rhs.y),
            }),
    {
        Self { x: self.x - rhs.x, y: self.y - rhs.y }
    }
}

impl<T: Mul<Output = T> + Copy> MulSpecImpl<T> for Vector2<T> {
    open spec fn obeys_mul_spec() -> bool {
        <T as MulSpec<T>>::obeys_mul_spec()
    }

    open spec fn mul_req(self, scalar: T) -> bool {
        self.x.mul_req(scalar) && self.y.mul_req(scalar)
    }

    open spec fn mul_spec(self, scalar: T) -> Self {
        Vector2 { x: self.x.mul_spec(scalar), y: self.y.mul_spec(scalar) }
    }
}

impl<T: Mul<Output = T> + Copy> Mul<T> for Vector2<T> {
    type Output = Self;

    /// The product, of each component and the scalar. Asks of each pair of operands what the
    /// component type's own operator asks of it.
    fn mul(self, scalar: T) -> (r: Self)
        ensures
            T::obeys_mul_spec() ==> r == (Vector2 {
                x: self.x.mul_spec(scalar),
                y: self.y.mul_spec(scalar),
            }),
    {
        Self { x: self.x * scalar, y: self.y * scalar }
    }
}

impl<T: Div<Output = T> + Copy> DivSpecImpl<T> for Vector2<T> {
    open spec fn obeys_div_spec() -> bool {
        <T as DivSpec<T>>::obeys_div_spec()
    }

    open spec fn div_req(self, scalar: T) -> bool {
        self.x.div_req(scalar) && self.y.div_req(scalar)
    }

    open spec fn div_spec(self, scalar: T) -> Self {
        Vector2 { x: self.x.div_spec(scalar), y: self.y.div_spec(scalar) }
    }
}

impl<T: Div<Output = T> + Copy> Div<T> for Vector2<T> {
    type Output = Self;

    /// The quotient, of each component and the scalar. Asks of each pair of operands what the
    /// component type's own operator asks of it.
    fn div(self, scalar: T) -> (r: Self)
        ensures
            T::obeys_div_spec() ==> r == (Vector2 {
                x: self.x.div_spec(scalar),
                y: self.y.div_spec(scalar),
            }),
    {
        Self { x: self.x / scalar, y: self.y / scalar }
    }
}

impl<T: Mul<Output = T>> MulSpecImpl for Vector2<T> {
    open spec fn obeys_mul_spec() -> bool {
        T::obeys_mul_spec()
    }

    open spec fn mul_req(self, rhs: Self) -> bool {
        self.x.mul_req(rhs.x) && self.y.mul_req(rhs.y)
    }

    open spec fn mul_spec(self, rhs: Self) -> Self {
        Vector2 { x: self.x.mul_spec(rhs.x), y: self.y.mul_spec(rhs.y) }
    }
}

impl<T: Mul<Output = T>> Mul for Vector2<T> {
    type Output = Self;

    /// The product, component by component. Asks of each pair of operands what the
    /// component type's own operator asks of it.
    fn mul(self, rhs: Self) -> (r: Self)
        ensures
            T::obeys_mul_spec() ==> r == (Vector2 {
                x: self.x.mul_spec(rhs.x),
                y: self.y.mul_spec(rhs.y),
            }),
    {
        Self { x: self.x * rhs.x, y: self.y * rhs.y }
    }
}

impl<T: Div<Output = T>> DivSpecImpl for Vector2<T> {
    open spec fn obeys_div_spec() -> bool {
        T::obeys_div_spec()
    }

    open spec fn div_req(self, rhs: Self) -> bool {
        self.x.div_req(rhs.x) && self.y.div_req(rhs.y)
    }

    open spec fn div_spec(self, rhs: Self) -> Self {
        Vector2 { x: self.x.div_spec(rhs.x), y: self.y.div_spec(rhs.y) }
    }
}

impl<T: Div<Output = T>> Div for Vector2<T> {
    type Output = Self;

    /// The quotient, component by component. Asks of each pair of operands what the
    /// component type's own operator asks of it.
    fn div(self, rhs: Self) -> (r: Self)
        ensures
            T::obeys_div_spec() ==> r == (Vector2 {
                x: self.x.div_spec(rhs.x),
                y: self.y.div_spec(rhs.y),
            }),
    {
        Self { x: self.x / rhs.x, y: self.y / rhs.y }
    }
}

impl<T: Mul<Output = T> + Add<Output = T> + Copy> Vector2<T> {
    /// The sum of the products of the components, taken from left to right.
    pub open spec fn dot_spec(self, rhs: Self) -> T {
        self.x.mul_spec(rhs.x).add_spec(self.y.mul_spec(rhs.y))
    }

    /// The dot product. Asks that every product and every partial sum can
    /// be formed.
    pub fn dot(self, rhs: Self) -> (r: T)
        requires
            T::obeys_mul_spec(),
            T::obeys_add_spec(),
            self.x.mul_req(rhs.x),
            self.y.mul_req(rhs.y),
            self.x.mul_spec(rhs.x).add_req(self.y.mul_spec(rhs.y)),
        ensures
            r == self.dot_spec(rhs),
    {
        self.x * rhs.x + self.y * rhs.y
    }
}

impl<T> vstd::std_specs::core::IndexSpecImpl<usize> for Vector2<T> {
    open spec fn index_req(&self, index: &usize) -> bool {
        *index < 2
    }
}

impl<T> Index<usize> for Vector2<T> {
    type Output = T;

    /// The component at position 0 or 1. No other position is accepted.
    fn index(&self, index: usize) -> (r: &T)
        ensures
            *r == self.component(index),
    {
        match index {
            0 => &self.x,
            _ => &self.y,
        }
    }
}

impl<T> IndexMut<usize> for Vector2<T> {
    /// The component at a position, to be changed in place. Any position
    /// past the last stands for `y`.
    fn index_mut(&mut self, index: usize) -> (r: &mut T)
        ensures
            *r == old(self).component(index),
            *final(self) == old(self).with_component(index, *final(r)),
    {
        match index {
            0 => &mut self.x,
            _ => &mut self.y,
        }
    }
}

impl<T: PartialOrd + Ord + Copy> Vector2<T> {
    /// The lesser of each pair of components.
    pub fn min(self, rhs: Self) -> (r: Self)
        ensures
            T::obeys_cmp_spec() ==> r == (Vector2 { x: lesser(self.x, rhs.x), y: lesser(self.y, rhs.y) }),
    {
        Self { x: self.x.min(rhs.x), y: self.y.min(rhs.y) }
    }

    /// The greater of each pair of components.
    pub fn max(self, rhs: Self) -> (r: Self)
        ensures
            T::obeys_cmp_spec() ==> r == (Vector2 { x: greater(self.x, rhs.x), y: greater(self.y, rhs.y) }),
    {
        Self { x: self.x.max(rhs.x), y: self.y.max(rhs.y) }
    }
}

impl<T> Vector3<T> {
    /// The vector with the given components.
    pub fn new(x: T, y: T, z: T) -> (v: Self)
        ensures
            v == (Vector3 { x, y, z }),
    {
        Self { x, y, z }
    }

    /// The component at a position; the last one for any position past it.
    pub open spec fn component(self, index: usize) -> T {
        if index == 0 {
            self.x
        } else if index == 1 {
            self.y
        } else {
            self.z
        }
    }

    /// The vector with the component at a position replaced.
    pub open spec fn with_component(self, index: usize, value: T) -> Self {
        if index == 0 {
            Vector3 { x: value, ..self }
        } else if index == 1 {
            Vector3 { y: value, ..self }
        } else {
            Vector3 { z: value, ..self }
        }
    }
}

impl<T: Add<Output = T>> AddSpecImpl for Vector3<T> {
    open spec fn obeys_add_spec() -> bool {
        T::obeys_add_spec()
    }

    open spec fn add_req(self, rhs: Self) -> bool {
        self.x.add_req(rhs.x) && self.y.add_req(rhs.y) && self.z.add_req(rhs.z)
    }

    open spec fn add_spec(self, rhs: Self) -> Self {
        Vector3 { x: self.x.add_spec(rhs.x), y: self.y.add_spec(rhs.y), z: self.z.add_spec(rhs.z) }
    }
}

impl<T: Add<Output = T>> Add for Vector3<T> {
    type Output = Self;

    /// The sum, component by component. Asks of each pair of operands what the
    /// component type's own operator asks of it.
    fn add(self, rhs: Self) -> (r: Self)
        ensures
            T::obeys_add_spec() ==> r == (Vector3 {
                x: self.x.add_spec(rhs.x),
                y: self.y.add_spec(rhs.y),
                z: self.z.add_spec(rhs.z),
            }),
    {
        Self { x: self.x + rhs.x, y: self.y + rhs.y, z: self.z + rhs.z }
    }
}

impl<T: Sub<Output = T>> SubSpecImpl for Vector3<T> {
    open spec fn obeys_sub_spec() -> bool {
        T::obeys_sub_spec()
    }

    open spec fn sub_req(self, rhs: Self) -> bool {
        self.x.sub_req(rhs.x) && self.y.sub_req(rhs.y) && self.z.sub_req(rhs.z)
    }

    open spec fn sub_spec(self, rhs: Self) -> Self {
        Vector3 { x: self.x.sub_spec(rhs.x), y: self.y.sub_spec(rhs.y), z: self.z.sub_spec(rhs.z) }
    }
}

impl<T: Sub<Output = T>> Sub for Vector3<T> {
    type Output = Self;

    /// The difference, component by component. Asks of each pair of operands what the
    /// component type's own operator asks of it.
    fn sub(self, rhs: Self) -> (r: Self)
        ensures
            T::obeys_sub_spec() ==> r == (Vector3 {
                x: self.x.sub_spec(rhs.x),
                y: self.y.sub_spec(rhs.y),
                z: self.z.sub_spec(rhs.z),
            }),
    {
        Self { x: self.x - rhs.x, y: self.y - rhs.y, z: self.z - rhs.z }
    }
}

impl<T: Mul<Output = T> + Copy> MulSpecImpl<T> for Vector3<T> {
    open spec fn obeys_mul_spec() -> bool {
        <T as MulSpec<T>>::obeys_mul_spec()
    }

    open spec fn mul_req(self, scalar: T) -> bool {
        self.x.mul_req(scalar) && self.y.mul_req(scalar) && self.z.mul_req(scalar)
    }

    open spec fn mul_spec(self, scalar: T) -> Self {
        Vector3 { x: self.x.mul_spec(scalar), y: self.y.mul_spec(scalar), z: self.z.mul_spec(scalar) }
    }
}

impl<T: Mul<Output = T> + Copy> Mul<T> for Vector3<T> {
    type Output = Self;

    /// The product, of each component and the scalar. Asks of each pair of operands what the
    /// component type's own operator asks of it.
    fn mul(self, scalar: T) -> (r: Self)
        ensures
            T::obeys_mul_spec() ==> r == (Vector3 {
                x: self.x.mul_spec(scalar),
                y: self.y.mul_spec(scalar),
                z: self.z.mul_spec(scalar),
            }),
    {
        Self { x: self.x * scalar, y: self.y * scalar, z: self.z * scalar }
    }
}

impl<T: Div<Output = T> + Copy> DivSpecImpl<T> for Vector3<T> {
    open spec fn obeys_div_spec() -> bool {
        <T as DivSpec<T>>::obeys_div_spec()
    }

    open spec fn div_req(self, scalar: T) -> bool {
        self.x.div_req(scalar) && self.y.div_req(scalar) && self.z.div_req(scalar)
    }

    open spec fn div_spec(self, scalar: T) -> Self {
        Vector3 { x: self.x.div_spec(scalar), y: self.y.div_spec(scalar), z: self.z.div_spec(scalar) }
    }
}

impl<T: Div<Output = T> + Copy> Div<T> for Vector3<T> {
    type Output = Self;

    /// The quotient, of each component and the scalar. Asks of each pair of operands what the
    /// component type's own operator asks of it.
    fn div(self, scalar: T) -> (r: Self)
        ensures
            T::obeys_div_spec() ==> r == (Vector3 {
                x: self.x.div_spec(scalar),
                y: self.y.div_spec(scalar),
                z: self.z.div_spec(scalar),
            }),
    {
        Self { x: self.x / scalar, y: self.y / scalar, z: self.z / scalar }
    }
}

impl<T: Mul<Output = T>> MulSpecImpl for Vector3<T> {
    open spec fn obeys_mul_spec() -> bool {
        T::obeys_mul_spec()
    }

    open spec fn mul_req(self, rhs: Self) -> bool {
        self.x.mul_req(rhs.x) && self.y.mul_req(rhs.y) && self.z.mul_req(rhs.z)
    }

    open spec fn mul_spec(self, rhs: Self) -> Self {
        Vector3 { x: self.x.mul_spec(rhs.x), y: self.y.mul_spec(rhs.y), z: self.z.mul_spec(rhs.z) }
    }
}

impl<T: Mul<Output = T>> Mul for Vector3<T> {
    type Output = Self;

    /// The product, component by component. Asks of each pair of operands what the
    /// component type's own operator asks of it.
    fn mul(self, rhs: Self) -> (r: Self)
        ensures
            T::obeys_mul_spec() ==> r == (Vector3 {
                x: self.x.mul_spec(rhs.x),
                y: self.y.mul_spec(rhs.y),
                z: self.z.mul_spec(rhs.z),
            }),
    {
        Self { x: self.x * rhs.x, y: self.y * rhs.y, z: self.z * rhs.z }
    }
}

impl<T: Div<Output = T>> DivSpecImpl for Vector3<T> {
    open spec fn obeys_div_spec() -> bool {
        T::obeys_div_spec()
    }

    open spec fn div_req(self, rhs: Self) -> bool {
        self.x.div_req(rhs.x) && self.y.div_req(rhs.y) && self.z.div_req(rhs.z)
    }

    open spec fn div_spec(self, rhs: Self) -> Self {
        Vector3 { x: self.x.div_spec(rhs.x), y: self.y.div_spec(rhs.y), z: self.z.div_spec(rhs.z) }
    }
}

impl<T: Div<Output = T>> Div for Vector3<T> {
    type Output = Self;

    /// The quotient, component by component. Asks of each pair of operands what the
    /// component type's own operator asks of it.
    fn div(self, rhs: Self) -> (r: Self)
        ensures
            T::obeys_div_spec() ==> r == (Vector3 {
                x: self.x.div_spec(rhs.x),
                y: self.y.div_spec(rhs.y),
                z: self.z.div_spec(rhs.z),
            }),
    {
        Self { x: self.x / rhs.x, y: self.y / rhs.y, z: self.z / rhs.z }
    }
}

impl<T: Mul<Output = T> + Add<Output = T> + Copy> Vector3<T> {
    /// The sum of the products of the components, taken from left to right.
    pub open spec fn dot_spec(self, rhs: Self) -> T {
        self.x.mul_spec(rhs.x).add_spec(self.y.mul_spec(rhs.y)).add_spec(self.z.mul_spec(rhs.z))
    }

    /// The dot product. Asks that every product and every partial sum can
    /// be formed.
    pub fn dot(self, rhs: Self) -> (r: T)
        requires
            T::obeys_mul_spec(),
            T::obeys_add_spec(),
            self.x.mul_req(rhs.x),
            self.y.mul_req(rhs.y),
            self.z.mul_req(rhs.z),
            self.x.mul_spec(rhs.x).add_req(self.y.mul_spec(rhs.y)),
            self.x.mul_spec(rhs.x).add_spec(self.y.mul_spec(rhs.y)).add_req(self.z.mul_spec(rhs.z)),
        ensures
            r == self.dot_spec(rhs),
    {
        self.x * rhs.x + self.y * rhs.y + self.z * rhs.z
    }
}

impl<T> vstd::std_specs::core::IndexSpecImpl<usize> for Vector3<T> {
    open spec fn index_req(&self, index: &usize) -> bool {
        *index < 3
    }
}

impl<T> Index<usize> for Vector3<T> {
    type Output = T;

    /// The component at position 0, 1 or 2. No other position is accepted.
    fn index(&self, index: usize) -> (r: &T)
        ensures
            *r == self.component(index),
    {
        match index {
            0 => &self.x,
            1 => &self.y,
            _ => &self.z,
        }
    }
}

impl<T> IndexMut<usize> for Vector3<T> {
    /// The component at a position, to be changed in place. Any position
    /// past the last stands for `z`.
    fn index_mut(&mut self, index: usize) -> (r: &mut T)
        ensures
            *r == old(self).component(index),
            *final(self) == old(self).with_component(index, *final(r)),
    {
        match index {
            0 => &mut self.x,
            1 => &mut self.y,
            _ => &mut self.z,
        }
    }
}

impl<T: PartialOrd + Ord + Copy> Vector3<T> {
    /// The lesser of each pair of components.
    pub fn min(self, rhs: Self) -> (r: Self)
        ensures
            T::obeys_cmp_spec() ==> r == (Vector3 { x: lesser(self.x, rhs.x), y: lesser(self.y, rhs.y), z: lesser(self.z, rhs.z) }),
    {
        Self { x: self.x.min(rhs.x), y: self.y.min(rhs.y), z: self.z.min(rhs.z) }
    }

    /// The greater of each pair of components.
    pub fn max(self, rhs: Self) -> (r: Self)
        ensures
            T::obeys_cmp_spec() ==> r == (Vector3 { x: greater(self.x, rhs.x), y: greater(self.y, rhs.y), z: greater(self.z, rhs.z) }),
    {
        Self { x: self.x.max(rhs.x), y: self.y.max(rhs.y), z: self.z.max(rhs.z) }
    }
}

} // verus!
