use node_graph::geometry::{
    clamped, is_closer_than, is_nonzero, pack_point, displace, unpack_point, Rect,
    DISTANCE_TO_CONNECT,
};
use node_graph::math::vector::Vector2;
use node_graph::widget::NodeWidget;

fn p(x: i32, y: i32) -> Vector2<i32> {
    Vector2::new(x, y)
}

#[test]
fn coordinates_stop_at_the_edge_of_their_range() {
    assert_eq!(clamped(5), 5);
    assert_eq!(clamped(i32::MAX as i64 + 1), i32::MAX);
    assert_eq!(clamped(i32::MIN as i64 - 1), i32::MIN);
    assert_eq!(displace(p(1, 2), p(10, -20)), p(11, -18));
    assert_eq!(displace(p(i32::MAX, i32::MIN), p(1, -1)), p(i32::MAX, i32::MIN));
}

#[test]
fn reach_is_strictly_less_than_the_radius() {
    assert_eq!(DISTANCE_TO_CONNECT, 10);
    assert!(is_closer_than(p(0, 0), p(0, 0), 10));
    assert!(is_closer_than(p(0, 0), p(6, 7), 10));
    assert!(is_closer_than(p(0, 0), p(0, 9), 10));
    assert!(!is_closer_than(p(0, 0), p(6, 8), 10));
    assert!(!is_closer_than(p(0, 0), p(10, 0), 10));
    assert!(!is_closer_than(p(-3, -4), p(3, 4), 10));
    assert!(!is_closer_than(p(0, 0), p(0, 0), 0));
    assert!(!is_closer_than(p(i32::MIN, i32::MIN), p(i32::MAX, i32::MAX), i32::MAX));
}

#[test]
fn a_displacement_of_zero_moves_nothing() {
    assert!(!is_nonzero(p(0, 0)));
    assert!(is_nonzero(p(0, -1)));
    assert!(is_nonzero(p(1, 0)));
}

#[test]
fn a_rectangle_spans_two_corners_in_either_order() {
    let r = Rect::from_two_pos(p(10, 2), p(3, 8));
    assert_eq!(r, Rect { min: p(3, 2), max: p(10, 8) });
    assert_eq!(Rect::from_two_pos(p(3, 8), p(10, 2)), r);
}

#[test]
fn rectangles_meet_at_a_shared_edge() {
    let r = Rect { min: p(0, 0), max: p(10, 10) };
    assert!(r.intersects(Rect { min: p(10, 10), max: p(20, 20) }));
    assert!(r.intersects(Rect { min: p(2, 2), max: p(3, 3) }));
    assert!(!r.intersects(Rect { min: p(11, 0), max: p(20, 10) }));
    assert!(!r.intersects(Rect { min: p(0, -5), max: p(10, -1) }));
}

#[test]
fn a_square_around_a_centre() {
    assert_eq!(Rect::from_center_size(p(50, 50), 10), Rect { min: p(45, 45), max: p(55, 55) });
    assert_eq!(Rect::from_center_size(p(0, 0), 5), Rect { min: p(-2, -2), max: p(3, 3) });
}

#[test]
fn the_close_button_sits_in_the_top_right_corner() {
    let node = Rect { min: p(100, 200), max: p(300, 400) };
    let area = NodeWidget::<(), ()>::close_button(node);
    assert_eq!(area, Rect { min: p(282, 208), max: p(292, 218) });
}

#[test]
fn packing_a_position_loses_nothing() {
    for point in [p(0, 0), p(1, -1), p(-7, 9), p(i32::MIN, i32::MAX), p(i32::MAX, i32::MIN)] {
        assert_eq!(unpack_point(pack_point(point)), point);
    }
    assert_eq!(pack_point(p(i32::MIN, i32::MIN)), 0);
    assert_eq!(pack_point(p(0, 0)), 0x8000_0000_8000_0000);
    assert_eq!(pack_point(p(i32::MAX, i32::MAX)), u64::MAX);
}
