//! Integer pixel geometry: points, upright rectangles and strokes between points.

use vstd::prelude::*;

verus! {

/// A pixel position: `x` counts columns from the left, `y` counts rows from the top.
#[derive(Clone, Copy, Debug, PartialEq, Eq, Structural)]
pub struct Point {
    pub x: i32,
    pub y: i32,
}

/// An upright rectangle given by its top-left corner and its extent.
///
/// Nothing is assumed about the sign of `width` and `height`.
#[derive(Clone, Copy, Debug, PartialEq, Eq, Structural)]
pub struct Rect {
    pub x: i32,
    pub y: i32,
    pub width: i32,
    pub height: i32,
}

/// A straight stroke from `start` to `end`.
#[derive(Clone, Copy, Debug, PartialEq, Eq, Structural)]
pub struct Segment {
    pub start: Point,
    pub end: Point,
}

/// Half of `v`, rounded towards zero.
pub open spec fn half(v: int) -> int {
    if v >= 0 {
        v / 2
    } else {
        -((-v) / 2)
    }
}

impl Rect {
    /// Column of the center: the left edge plus half the width.
    pub open spec fn center_x(self) -> int {
        self.x + half(self.width as int)
    }

    /// Row of the center: the top edge plus half the height.
    pub open spec fn center_y(self) -> int {
        self.y + half(self.height as int)
    }

    /// Whether both coordinates of the center are representable as pixel coordinates.
    pub open spec fn center_fits(self) -> bool {
        &&& i32::MIN <= self.center_x() <= i32::MAX
        &&& i32::MIN <= self.center_y() <= i32::MAX
    }

    /// The center as a point; meaningful where `center_fits` holds.
    pub open spec fn center_point(self) -> Point {
        Point { x: self.center_x() as i32, y: self.center_y() as i32 }
    }
}

/// Tells whether `center` may be called on `rect`.
pub fn center_in_range(rect: &Rect) -> (ok: bool)
    ensures
        ok == rect.center_fits(),
{
    let cx: i64 = rect.x as i64 + (rect.width / 2) as i64;
    let cy: i64 = rect.y as i64 + (rect.height / 2) as i64;
    i32::MIN as i64 <= cx && cx <= i32::MAX as i64 && i32::MIN as i64 <= cy && cy <= i32::MAX as i64
}

/// The center of `rect`: each coordinate of the corner moved by half the extent,
/// the half rounded towards zero.
pub fn center(rect: &Rect) -> (p: Point)
    requires
        rect.center_fits(),
    ensures
        p == rect.center_point(),
        p.x == rect.center_x(),
        p.y == rect.center_y(),
{
    let x: i32 = rect.width / 2;
    let y: i32 = rect.height / 2;
    let center_x: i32 = rect.x + x;
    let center_y: i32 = rect.y + y;
    Point { x: center_x, y: center_y }
}

/// The center of a rectangle of non-negative extent lies within the rectangle:
/// not left of or above the corner, and not beyond the corner moved by the extent.
pub proof fn lemma_center_within(rect: Rect)
    requires
        rect.width >= 0,
        rect.height >= 0,
    ensures
        rect.x <= rect.center_x() <= rect.x + rect.width,
        rect.y <= rect.center_y() <= rect.y + rect.height,
{
}

/// Moving a rectangle moves its center by the same amount.
pub proof fn lemma_center_moves_with_rect(rect: Rect, moved: Rect)
    requires
        moved.width == rect.width,
        moved.height == rect.height,
    ensures
        moved.center_x() - rect.center_x() == moved.x - rect.x,
        moved.center_y() - rect.center_y() == moved.y - rect.y,
{
}

} // verus!
