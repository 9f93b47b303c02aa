use vision_logic::geometry::{center, center_in_range, Point, Rect};

#[test]
fn center_of_even_box() {
    let rect = Rect { x: 100, y: 200, width: 50, height: 80 };
    assert!(center_in_range(&rect));
    assert_eq!(center(&rect), Point { x: 125, y: 240 });
}

#[test]
fn center_of_odd_box_rounds_down() {
    let rect = Rect { x: 10, y: 20, width: 7, height: 9 };
    assert_eq!(center(&rect), Point { x: 13, y: 24 });
}

#[test]
fn center_of_empty_box_is_its_corner() {
    let rect = Rect { x: -4, y: 17, width: 0, height: 1 };
    assert_eq!(center(&rect), Point { x: -4, y: 17 });
}

#[test]
fn center_with_negative_extent_rounds_towards_zero() {
    let rect = Rect { x: 10, y: 20, width: -7, height: -8 };
    assert!(center_in_range(&rect));
    assert_eq!(center(&rect), Point { x: 7, y: 16 });
}

#[test]
fn center_at_the_largest_coordinate() {
    let rect = Rect { x: i32::MAX - 1, y: i32::MAX, width: 3, height: 1 };
    assert!(center_in_range(&rect));
    assert_eq!(center(&rect), Point { x: i32::MAX, y: i32::MAX });
}

#[test]
fn center_at_the_smallest_coordinate() {
    let rect = Rect { x: i32::MIN + 1, y: i32::MIN, width: -3, height: -1 };
    assert!(center_in_range(&rect));
    assert_eq!(center(&rect), Point { x: i32::MIN, y: i32::MIN });
}

#[test]
fn center_out_of_range_to_the_right() {
    let rect = Rect { x: i32::MAX, y: 0, width: 2, height: 2 };
    assert!(!center_in_range(&rect));
}

#[test]
fn center_out_of_range_below() {
    let rect = Rect { x: 0, y: i32::MAX - 1, width: 2, height: 4 };
    assert!(!center_in_range(&rect));
}

#[test]
fn center_out_of_range_to_the_left() {
    let rect = Rect { x: i32::MIN, y: 0, width: -2, height: 0 };
    assert!(!center_in_range(&rect));
}

#[test]
fn center_stays_within_a_box_of_positive_extent() {
    let rect = Rect { x: 3, y: 5, width: 11, height: 2 };
    let c = center(&rect);
    assert!(rect.x <= c.x && c.x <= rect.x + rect.width);
    assert!(rect.y <= c.y && c.y <= rect.y + rect.height);
}

#[test]
fn center_moves_with_the_box() {
    let rect = Rect { x: 3, y: 5, width: 11, height: 2 };
    let moved = Rect { x: 23, y: -5, width: 11, height: 2 };
    let a = center(&rect);
    let b = center(&moved);
    assert_eq!(b.x - a.x, 20);
    assert_eq!(b.y - a.y, -10);
}
