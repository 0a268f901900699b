use node_graph::math::vector::{Vector2, Vector3, Vector4};
use std::ops::IndexMut;

#[test]
fn vector2_new_keeps_the_components() {
    let v = Vector2::new(3, -4);
    assert_eq!(v.x, 3);
    assert_eq!(v.y, -4);
}

#[test]
fn vector2_arithmetic_is_by_component() {
    let a = Vector2::new(6, 8);
    let b = Vector2::new(2, -4);
    assert_eq!(a + b, Vector2::new(8, 4));
    assert_eq!(a - b, Vector2::new(4, 12));
    assert_eq!(a * b, Vector2::new(12, -32));
    assert_eq!(a / b, Vector2::new(3, -2));
    assert_eq!(a * 3, Vector2::new(18, 24));
    assert_eq!(a / 2, Vector2::new(3, 4));
}

#[test]
fn vector2_dot() {
    assert_eq!(Vector2::new(1, 2).dot(Vector2::new(3, 4)), 11);
    assert_eq!(Vector2::new(-1i64, 2).dot(Vector2::new(2, 1)), 0);
}

#[test]
fn vector2_index() {
    let mut v = Vector2::new(10u8, 20);
    assert_eq!(v[0], 10);
    assert_eq!(v[1], 20);
    v[0] = 11;
    *v.index_mut(1) = 21;
    assert_eq!(v, Vector2::new(11, 21));
}

#[test]
fn vector2_min_max() {
    let a = Vector2::new(1, 9);
    let b = Vector2::new(5, 2);
    assert_eq!(a.min(b), Vector2::new(1, 2));
    assert_eq!(a.max(b), Vector2::new(5, 9));
    assert_eq!(a.min(a), a);
    assert_eq!(a.max(a), a);
}

#[test]
fn vector3_new_keeps_the_components() {
    let v = Vector3::new('a', 'b', 'c');
    assert_eq!((v.x, v.y, v.z), ('a', 'b', 'c'));
}

#[test]
fn vector3_arithmetic_is_by_component() {
    let a = Vector3::new(6, 8, 10);
    let b = Vector3::new(2, -4, 5);
    assert_eq!(a + b, Vector3::new(8, 4, 15));
    assert_eq!(a - b, Vector3::new(4, 12, 5));
    assert_eq!(a * b, Vector3::new(12, -32, 50));
    assert_eq!(a / b, Vector3::new(3, -2, 2));
    assert_eq!(a * 3, Vector3::new(18, 24, 30));
    assert_eq!(a / 2, Vector3::new(3, 4, 5));
}

#[test]
fn vector3_dot() {
    assert_eq!(Vector3::new(1, 2, 3).dot(Vector3::new(4, 5, 6)), 32);
}

#[test]
fn vector3_index() {
    let mut v = Vector3::new(1, 2, 3);
    assert_eq!((v[0], v[1], v[2]), (1, 2, 3));
    v[2] = 30;
    v[1] = 20;
    assert_eq!(v, Vector3::new(1, 20, 30));
}

#[test]
fn vector3_min_max() {
    let a = Vector3::new(1, 9, -3);
    let b = Vector3::new(5, 2, -3);
    assert_eq!(a.min(b), Vector3::new(1, 2, -3));
    assert_eq!(a.max(b), Vector3::new(5, 9, -3));
}

#[test]
fn vector4_holds_four_components() {
    let v = Vector4 { x: 1, y: 2, z: 3, w: 4 };
    let w = v;
    assert_eq!(v, w);
    assert_eq!(w.w, 4);
}
