//! The closed outline through a list of corner points.

use vstd::prelude::*;
use vstd::arithmetic::div_mod::{lemma_mod_self_0, lemma_small_mod};
use crate::geometry::{Point, Segment};

verus! {

/// The strokes that join each point to the next and the last point back to the first.
/// A single point is joined to itself; no points give no strokes.
pub open spec fn outline_of(points: Seq<Point>) -> Seq<Segment> {
    Seq::new(
        points.len(),
        |i: int| Segment { start: points[i], end: points[(i + 1) % (points.len() as int)] },
    )
}

/// Lists the strokes of the closed outline through `points`, in the order of the points.
pub fn closed_outline(points: &Vec<Point>) -> (strokes: Vec<Segment>)
    ensures
        strokes@ == outline_of(points@),
{
    let n: usize = points.len();
    let mut strokes: Vec<Segment> = Vec::new();
    let mut count: usize = 0;
    while count < n
        invariant
            count <= n,
            n == points.len(),
            strokes.len() == count,
            forall|i: int| 0 <= i < count ==> #[trigger] strokes@[i] == outline_of(points@)[i],
        decreases n - count,
    {
        let before = points[count];
        let after = if count == n - 1 {
            proof {
                lemma_mod_self_0(n as int);
            }
            points[0]
        } else {
            proof {
                lemma_small_mod((count + 1) as nat, n as nat);
            }
            points[count + 1]
        };
        strokes.push(Segment { start: before, end: after });
        count = count + 1;
    }
    strokes
}

/// The outline has one stroke per point, each starting at its own point.
pub proof fn lemma_outline_starts(points: Seq<Point>, i: int)
    requires
        0 <= i < points.len(),
    ensures
        outline_of(points).len() == points.len(),
        outline_of(points)[i].start == points[i],
{
}

/// Each stroke but the last ends where the next one starts.
pub proof fn lemma_outline_is_connected(points: Seq<Point>, i: int)
    requires
        0 <= i < points.len() - 1,
    ensures
        outline_of(points)[i].end == outline_of(points)[i + 1].start,
{
    lemma_small_mod((i + 1) as nat, points.len());
}

/// The last stroke ends where the first one starts.
pub proof fn lemma_outline_is_closed(points: Seq<Point>)
    requires
        points.len() > 0,
    ensures
        outline_of(points).last().end == outline_of(points).first().start,
{
    lemma_mod_self_0(points.len() as int);
}

} // verus!
