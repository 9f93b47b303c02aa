//! Rewriting a pixel value from the position it stands at.

use vstd::prelude::*;
use crate::geometry::Point;

verus! {

/// Whether `v` can be held by a signed 32-bit pixel value or coordinate.
pub open spec fn fits(v: int) -> bool {
    i32::MIN <= v <= i32::MAX
}

/// Column plus row of a position.
pub open spec fn position_sum(pos: Point) -> int {
    pos.x + pos.y
}

/// The value multiplied by the sum of column and row of its position.
///
/// `None` when the sum, or then the product, cannot be held.
pub fn scale_by_position(value: i32, pos: &Point) -> (out: Option<i32>)
    ensures
        match out {
            Some(v) => {
                &&& fits(position_sum(*pos))
                &&& fits(value * position_sum(*pos))
                &&& v == value * position_sum(*pos)
            },
            None => !fits(position_sum(*pos)) || !fits(value * position_sum(*pos)),
        },
{
    match pos.x.checked_add(pos.y) {
        Some(sum) => value.checked_mul(sum),
        None => None,
    }
}

/// The value raised by the sum of column and row of its position.
///
/// `None` when the sum, or then the raised value, cannot be held.
pub fn shift_by_position(value: i32, pos: &Point) -> (out: Option<i32>)
    ensures
        match out {
            Some(v) => {
                &&& fits(position_sum(*pos))
                &&& fits(value + position_sum(*pos))
                &&& v == value + position_sum(*pos)
            },
            None => !fits(position_sum(*pos)) || !fits(value + position_sum(*pos)),
        },
{
    match pos.x.checked_add(pos.y) {
        Some(sum) => value.checked_add(sum),
        None => None,
    }
}

} // verus!
