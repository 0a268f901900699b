//! Screen geometry in whole screen units: points, rectangles, and the few
//! measurements that the controller takes.

use vstd::prelude::*;
use crate::math::vector::Vector2;

verus! {

/// A position on the screen, or a displacement between two positions.
pub type ScreenPoint = Vector2<i32>;

/// How close to a port's centre a wire has to be let go of to land on the port.
pub const DISTANCE_TO_CONNECT: i32 = 10;

/// The nearest value that a coordinate can take.
pub open spec fn clamp_coord(v: int) -> i32 {
    if v < i32::MIN {
        i32::MIN
    } else if v > i32::MAX {
        i32::MAX
    } else {
        v as i32
    }
}

/// Computes `clamp_coord`.
pub fn clamped(v: i64) -> (c: i32)
    ensures
        c == clamp_coord(v as int),
{
    if v < i32::MIN as i64 {
        i32::MIN
    } else if v > i32::MAX as i64 {
        i32::MAX
    } else {
        v as i32
    }
}

/// A point displaced, each coordinate stopping at the edge of its range.
pub open spec fn displaced(p: ScreenPoint, delta: ScreenPoint) -> ScreenPoint {
    Vector2 { x: clamp_coord(p.x + delta.x), y: clamp_coord(p.y + delta.y) }
}

/// Computes `displaced`.
pub fn displace(p: ScreenPoint, delta: ScreenPoint) -> (q: ScreenPoint)
    ensures
        q == displaced(p, delta),
{
    Vector2 { x: clamped(p.x as i64 + delta.x as i64), y: clamped(p.y as i64 + delta.y as i64) }
}

/// The square of the distance between two points.
pub open spec fn distance_squared(a: ScreenPoint, b: ScreenPoint) -> int {
    (a.x - b.x) * (a.x - b.x) + (a.y - b.y) * (a.y - b.y)
}

/// Whether two points are less than `radius` apart.
pub open spec fn closer_than(a: ScreenPoint, b: ScreenPoint, radius: i32) -> bool {
    radius > 0 && distance_squared(a, b) < radius * radius
}

/// Decides `closer_than`.
pub fn is_closer_than(a: ScreenPoint, b: ScreenPoint, radius: i32) -> (r: bool)
    ensures
        r == closer_than(a, b, radius),
{
    if radius <= 0 {
        return false;
    }
    let dx: i128 = a.x as i128 - b.x as i128;
    let dy: i128 = a.y as i128 - b.y as i128;
    let r: i128 = radius as i128;
    assert(-0x1_0000_0000 < dx < 0x1_0000_0000 && -0x1_0000_0000 < dy < 0x1_0000_0000);
    assert(0 <= dx * dx <= 0x1_0000_0000 * 0x1_0000_0000) by (nonlinear_arith)
        requires
            -0x1_0000_0000 < dx < 0x1_0000_0000,
    ;
    assert(0 <= dy * dy <= 0x1_0000_0000 * 0x1_0000_0000) by (nonlinear_arith)
        requires
            -0x1_0000_0000 < dy < 0x1_0000_0000,
    ;
    assert(0 < r * r <= 0x8000_0000 * 0x8000_0000) by (nonlinear_arith)
        requires
            0 < r < 0x8000_0000,
    ;
    dx * dx + dy * dy < r * r
}

/// Whether a displacement moves anything.
pub fn is_nonzero(delta: ScreenPoint) -> (r: bool)
    ensures
        r == (delta.x != 0 || delta.y != 0),
{
    delta.x != 0 || delta.y != 0
}

/// An axis-aligned rectangle, edges included.
#[derive(Clone, Copy, Debug, PartialEq, Eq)]
pub struct Rect {
    pub min: ScreenPoint,
    pub max: ScreenPoint,
}

/// The lesser of two coordinates.
pub open spec fn min_coord(a: i32, b: i32) -> i32 {
    if a <= b {
        a
    } else {
        b
    }
}

/// The greater of two coordinates.
pub open spec fn max_coord(a: i32, b: i32) -> i32 {
    if a >= b {
        a
    } else {
        b
    }
}

impl Rect {
    /// The rectangle spanned by two opposite corners, in either order.
    pub open spec fn spanning(a: ScreenPoint, b: ScreenPoint) -> Rect {
        Rect {
            min: Vector2 { x: min_coord(a.x, b.x), y: min_coord(a.y, b.y) },
            max: Vector2 { x: max_coord(a.x, b.x), y: max_coord(a.y, b.y) },
        }
    }

    /// Computes `spanning`.
    pub fn from_two_pos(a: ScreenPoint, b: ScreenPoint) -> (r: Rect)
        ensures
            r == Rect::spanning(a, b),
    {
        Rect {
            min: Vector2 {
                x: if a.x <= b.x { a.x } else { b.x },
                y: if a.y <= b.y { a.y } else { b.y },
            },
            max: Vector2 {
                x: if a.x >= b.x { a.x } else { b.x },
                y: if a.y >= b.y { a.y } else { b.y },
            },
        }
    }

    /// The square of the given side around a centre, each edge stopping at
    /// the edge of the coordinate range.
    pub open spec fn around(center: ScreenPoint, side: i32) -> Rect {
        Rect {
            min: Vector2 {
                x: clamp_coord(center.x - side / 2),
                y: clamp_coord(center.y - side / 2),
            },
            max: Vector2 {
                x: clamp_coord(center.x - side / 2 + side),
                y: clamp_coord(center.y - side / 2 + side),
            },
        }
    }

    /// Computes `around` for a side that is not negative.
    pub fn from_center_size(center: ScreenPoint, side: i32) -> (r: Rect)
        requires
            side >= 0,
        ensures
            r == Rect::around(center, side),
    {
        let half: i64 = (side / 2) as i64;
        let left: i64 = center.x as i64 - half;
        let top: i64 = center.y as i64 - half;
        Rect {
            min: Vector2 { x: clamped(left), y: clamped(top) },
            max: Vector2 { x: clamped(left + side as i64), y: clamped(top + side as i64) },
        }
    }

    /// The two rectangles have a point in common.
    pub open spec fn overlaps(self, other: Rect) -> bool {
        &&& self.min.x <= other.max.x
        &&& other.min.x <= self.max.x
        &&& self.min.y <= other.max.y
        &&& other.min.y <= self.max.y
    }

    /// Decides `overlaps`.
    pub fn intersects(self, other: Rect) -> (r: bool)
        ensures
            r == self.overlaps(other),
    {
        self.min.x <= other.max.x && other.min.x <= self.max.x && self.min.y <= other.max.y
            && other.min.y <= self.max.y
    }
}

/// A position as one integer: both coordinates shifted to be non-negative,
/// `x` in the high half and `y` in the low half.
pub open spec fn packed_point(p: ScreenPoint) -> u64 {
    ((p.x + 0x8000_0000) * 0x1_0000_0000 + (p.y + 0x8000_0000)) as u64
}

/// The position that an integer stands for.
pub open spec fn unpacked_point(v: u64) -> ScreenPoint {
    Vector2 {
        x: (v / 0x1_0000_0000 - 0x8000_0000) as i32,
        y: (v % 0x1_0000_0000 - 0x8000_0000) as i32,
    }
}

/// Packing loses nothing.
pub proof fn lemma_pack_unpack(p: ScreenPoint)
    ensures
        unpacked_point(packed_point(p)) == p,
{
}

/// Computes `packed_point`.
pub fn pack_point(p: ScreenPoint) -> (v: u64)
    ensures
        v == packed_point(p),
{
    let x: u64 = (p.x as i64 + 0x8000_0000) as u64;
    let y: u64 = (p.y as i64 + 0x8000_0000) as u64;
    x * 0x1_0000_0000 + y
}

/// Computes `unpacked_point`.
pub fn unpack_point(v: u64) -> (p: ScreenPoint)
    ensures
        p == unpacked_point(v),
{
    let x: i64 = (v / 0x1_0000_0000) as i64 - 0x8000_0000;
    let y: i64 = (v % 0x1_0000_0000) as i64 - 0x8000_0000;
    Vector2 { x: x as i32, y: y as i32 }
}

} // verus!
