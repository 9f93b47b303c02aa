use vision_logic::geometry::Point;
use vision_logic::pixel::{scale_by_position, shift_by_position};

fn at(x: i32, y: i32) -> Point {
    Point { x, y }
}

#[test]
fn scaling_a_two_by_two_grid() {
    assert_eq!(scale_by_position(1, &at(0, 0)), Some(0));
    assert_eq!(scale_by_position(2, &at(1, 0)), Some(2));
    assert_eq!(scale_by_position(3, &at(0, 1)), Some(3));
    assert_eq!(scale_by_position(4, &at(1, 1)), Some(8));
}

#[test]
fn shifting_the_middle_of_a_four_by_four_grid() {
    assert_eq!(shift_by_position(6, &at(0, 0)), Some(6));
    assert_eq!(shift_by_position(7, &at(1, 0)), Some(8));
    assert_eq!(shift_by_position(10, &at(0, 1)), Some(11));
    assert_eq!(shift_by_position(11, &at(1, 1)), Some(13));
}

#[test]
fn scaling_with_negative_numbers() {
    assert_eq!(scale_by_position(-3, &at(2, 5)), Some(-21));
    assert_eq!(scale_by_position(3, &at(-2, -5)), Some(-21));
    assert_eq!(scale_by_position(-3, &at(-2, -5)), Some(21));
    assert_eq!(scale_by_position(i32::MIN, &at(1, 0)), Some(i32::MIN));
    assert_eq!(scale_by_position(i32::MAX, &at(-1, 0)), Some(-i32::MAX));
}

#[test]
fn scaling_that_does_not_fit() {
    assert_eq!(scale_by_position(i32::MAX, &at(1, 1)), None);
    assert_eq!(scale_by_position(i32::MIN, &at(-1, 0)), None);
    assert_eq!(scale_by_position(65536, &at(32768, 0)), None);
    assert_eq!(scale_by_position(65536, &at(32767, 0)), Some(2147418112));
}

#[test]
fn position_sum_that_does_not_fit() {
    assert_eq!(scale_by_position(0, &at(i32::MAX, 1)), None);
    assert_eq!(shift_by_position(-1, &at(i32::MAX, 1)), None);
    assert_eq!(shift_by_position(0, &at(i32::MIN, -1)), None);
}

#[test]
fn shifting_that_does_not_fit() {
    assert_eq!(shift_by_position(1, &at(i32::MAX, 0)), None);
    assert_eq!(shift_by_position(-1, &at(i32::MIN, 0)), None);
    assert_eq!(shift_by_position(0, &at(i32::MAX, 0)), Some(i32::MAX));
    assert_eq!(shift_by_position(-1, &at(i32::MAX, 0)), Some(i32::MAX - 1));
}
