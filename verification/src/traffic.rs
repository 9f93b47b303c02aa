//! Counting vehicles against a fixed horizontal detection line.
//!
//! Each moving object arrives as the upright box around its outline. Boxes that are
//! small in both directions are taken for noise. The center of every other box is kept
//! for good, and each time a box is kept, every center held that lies in the band around
//! the line adds one to the tally. A center in the band is therefore counted once when it
//! arrives and once more with every later vehicle.

use vstd::prelude::*;
use crate::geometry::{center, center_in_range, Point, Rect, Segment};

verus! {

/// A box narrower than this is not wide enough, by itself, to be a vehicle.
pub const MIN_W: i32 = 90;

/// A box lower than this is not high enough, by itself, to be a vehicle.
pub const MIN_H: i32 = 90;

/// Row of the detection line.
pub const LINE_HIGH: i32 = 600;

/// Half-height of the band around the line; the band's own edges are outside it.
pub const LINE_OFFSET: i32 = 6;

/// Column where the drawn line starts.
pub const LINE_LEFT: i32 = 10;

/// Column where the drawn line ends.
pub const LINE_RIGHT: i32 = 1200;

/// A box counts as a vehicle unless it is both too narrow and too low.
pub open spec fn vehicle_sized(rect: Rect) -> bool {
    !(rect.width < MIN_W && rect.height < MIN_H)
}

/// A point is on the line when its row is strictly inside the band.
pub open spec fn on_line(p: Point) -> bool {
    LINE_HIGH - LINE_OFFSET < p.y < LINE_HIGH + LINE_OFFSET
}

/// `on_line` as a predicate value.
pub open spec fn on_line_pred() -> spec_fn(Point) -> bool {
    |p: Point| on_line(p)
}

/// How many of `centers` are on the line.
pub open spec fn crossings(centers: Seq<Point>) -> nat {
    centers.filter(on_line_pred()).len()
}

/// The tally after the vehicles with these centers were seen in this order:
/// each arrival adds the crossings among all centers held once it is kept.
pub open spec fn running_total(centers: Seq<Point>) -> nat
    decreases centers.len(),
{
    if centers.len() == 0 {
        0
    } else {
        running_total(centers.drop_last()) + crossings(centers)
    }
}

/// How often the center at place `i` has been counted: never unless it is on the line,
/// and then once on arrival and once more for every center kept after it.
pub open spec fn times_counted(centers: Seq<Point>, i: int) -> nat {
    if 0 <= i < centers.len() && on_line(centers[i]) {
        (centers.len() - i) as nat
    } else {
        0
    }
}

/// `times_counted` added up over the first `n` places.
pub open spec fn counted_among(centers: Seq<Point>, n: int) -> nat
    decreases n,
{
    if n <= 0 {
        0
    } else {
        counted_among(centers, n - 1) + times_counted(centers, n - 1)
    }
}

/// A key code ends the run when it is positive and not 255, which some window
/// systems report while no key is down.
pub open spec fn stop_key(key: int) -> bool {
    key > 0 && key != 255
}

/// Tells whether a box is large enough to be a vehicle.
pub fn is_vehicle(rect: &Rect) -> (b: bool)
    ensures
        b == vehicle_sized(*rect),
{
    !(rect.width < MIN_W && rect.height < MIN_H)
}

/// Tells whether a point lies in the band around the detection line.
pub fn is_on_line(p: &Point) -> (b: bool)
    ensures
        b == on_line(*p),
{
    p.y > (LINE_HIGH - LINE_OFFSET) && p.y < (LINE_HIGH + LINE_OFFSET)
}

/// The detection line as a stroke to draw over a frame. Both of its ends are on the line
/// in the sense of `on_line`.
pub fn detection_line() -> (stroke: Segment)
    ensures
        stroke.start == (Point { x: LINE_LEFT, y: LINE_HIGH }),
        stroke.end == (Point { x: LINE_RIGHT, y: LINE_HIGH }),
        on_line(stroke.start),
        on_line(stroke.end),
{
    Segment {
        start: Point { x: LINE_LEFT, y: LINE_HIGH },
        end: Point { x: LINE_RIGHT, y: LINE_HIGH },
    }
}

/// Tells whether the key code read after a frame ends the run.
pub fn should_stop(key: i32) -> (b: bool)
    ensures
        b == stop_key(key as int),
{
    key > 0 && key != 255
}

/// What became of one box.
#[derive(Clone, Copy, Debug, PartialEq, Eq, Structural)]
pub enum Sighting {
    /// The box was too small; nothing changed.
    Ignored,
    /// The box was kept as a vehicle with this center, and the tally went from `before`
    /// to `after`, one step at a time.
    Vehicle { center: Point, before: i32, after: i32 },
}

impl Sighting {
    /// Every value the tally took on the way, in order: none for a box that was ignored,
    /// and for a vehicle the numbers after `before` up to `after`.
    pub open spec fn steps(self) -> Seq<i32> {
        match self {
            Sighting::Ignored => Seq::empty(),
            Sighting::Vehicle { center, before, after } => Seq::new(
                if after >= before {
                    (after - before) as nat
                } else {
                    0
                },
                |k: int| (before + 1 + k) as i32,
            ),
        }
    }

    /// Lists the values the tally took on the way, in order.
    pub fn announced(&self) -> (tallies: Vec<i32>)
        ensures
            tallies@ == self.steps(),
    {
        let mut tallies: Vec<i32> = Vec::new();
        match self {
            Sighting::Ignored => {},
            Sighting::Vehicle { center: _, before, after } => {
                let mut tally: i32 = *before;
                while tally < *after
                    invariant
                        *before <= tally <= *after || (tally == *before && *before > *after),
                        tallies@.len() == tally - *before,
                        forall|k: int|
                            0 <= k < tallies@.len() ==> #[trigger] tallies@[k] == *before + 1 + k,
                    decreases *after - tally,
                {
                    tally = tally + 1;
                    tallies.push(tally);
                }
            },
        }
        tallies
    }
}

/// Why a vehicle could not be recorded.
#[derive(Clone, Copy, Debug, PartialEq, Eq, Structural)]
pub enum CountError {
    /// The center of the box is not a representable pixel position.
    CenterOutOfRange,
    /// The tally would exceed the largest value it can hold.
    TallyOverflow,
}

/// The centers of all vehicles seen so far, with the tally of line crossings.
pub struct LineCounter {
    centers: Vec<Point>,
    on_line: i32,
    total: i32,
}

impl View for LineCounter {
    type V = Seq<Point>;

    /// The centers kept, oldest first.
    closed spec fn view(&self) -> Seq<Point> {
        self.centers@
    }
}

impl LineCounter {
    /// Both counts are those of the centers kept.
    #[verifier::type_invariant]
    spec fn counts_match(&self) -> bool {
        &&& self.on_line == crossings(self.centers@)
        &&& self.total == running_total(self.centers@)
    }

    /// A counter that has seen nothing.
    pub fn new() -> (counter: Self)
        ensures
            counter@ == Seq::<Point>::empty(),
    {
        proof {
            lemma_crossings_empty();
        }
        LineCounter { centers: Vec::new(), on_line: 0, total: 0 }
    }

    /// The tally so far.
    pub fn total(&self) -> (t: i32)
        ensures
            t == running_total(self@),
    {
        proof {
            use_type_invariant(self);
        }
        self.total
    }

    /// How many of the centers kept are on the line.
    pub fn on_line(&self) -> (n: i32)
        ensures
            n == crossings(self@),
    {
        proof {
            use_type_invariant(self);
        }
        self.on_line
    }

    /// The number of centers kept.
    pub fn len(&self) -> (n: usize)
        ensures
            n == self@.len(),
    {
        self.centers.len()
    }

    /// The center kept at place `i`, counting from the oldest; `None` past the newest.
    pub fn get(&self, i: usize) -> (p: Option<Point>)
        ensures
            p == if i < self@.len() {
                Some(self@[i as int])
            } else {
                None
            },
    {
        if i < self.centers.len() {
            Some(self.centers[i])
        } else {
            None
        }
    }

    /// Takes in the box around one moving object.
    ///
    /// A box that is not vehicle-sized is ignored. Otherwise its center is kept after
    /// those already held, and the tally grows by one for every center now held that is
    /// on the line. When the center is not representable, or the tally would not fit,
    /// nothing changes and the error says which.
    pub fn observe(&mut self, rect: &Rect) -> (out: Result<Sighting, CountError>)
        ensures
            match out {
                Ok(Sighting::Ignored) => {
                    &&& !vehicle_sized(*rect)
                    &&& final(self)@ == old(self)@
                },
                Ok(Sighting::Vehicle { center, before, after }) => {
                    &&& vehicle_sized(*rect)
                    &&& rect.center_fits()
                    &&& center == rect.center_point()
                    &&& final(self)@ == old(self)@.push(center)
                    &&& before == running_total(old(self)@)
                    &&& after == running_total(final(self)@)
                    &&& after == before + crossings(final(self)@)
                },
                Err(CountError::CenterOutOfRange) => {
                    &&& vehicle_sized(*rect)
                    &&& !rect.center_fits()
                    &&& final(self)@ == old(self)@
                },
                Err(CountError::TallyOverflow) => {
                    &&& vehicle_sized(*rect)
                    &&& rect.center_fits()
                    &&& running_total(old(self)@.push(rect.center_point())) > i32::MAX
                    &&& final(self)@ == old(self)@
                },
            },
    {
        if !is_vehicle(rect) {
            return Ok(Sighting::Ignored);
        }
        if !center_in_range(rect) {
            return Err(CountError::CenterOutOfRange);
        }
        let arrival = center(rect);
        proof {
            use_type_invariant(&*self);
            lemma_crossings_push(self.centers@, arrival);
            lemma_running_total_push(self.centers@, arrival);
        }
        let before: i32 = self.total;
        let hits: i64 = self.on_line as i64 + if is_on_line(&arrival) {
            1i64
        } else {
            0i64
        };
        let reached: i64 = before as i64 + hits;
        if reached > i32::MAX as i64 {
            return Err(CountError::TallyOverflow);
        }
        let after: i32 = reached as i32;
        // The list and both counts change together: the counter is taken apart and
        // put back whole.
        let mut taken = LineCounter::new();
        core::mem::swap(self, &mut taken);
        let LineCounter { centers: mut centers, on_line: _, total: _ } = taken;
        centers.push(arrival);
        *self = LineCounter { centers, on_line: hits as i32, total: after };
        Ok(Sighting::Vehicle { center: arrival, before, after })
    }
}

/// No center, no crossing.
pub proof fn lemma_crossings_empty()
    ensures
        crossings(Seq::<Point>::empty()) == 0,
{
    Seq::<Point>::empty().lemma_filter_len(on_line_pred());
}

/// One more center adds one crossing if it is on the line, and none otherwise.
pub proof fn lemma_crossings_push(centers: Seq<Point>, arrival: Point)
    ensures
        crossings(centers.push(arrival)) == crossings(centers) + if on_line(arrival) {
            1nat
        } else {
            0nat
        },
{
    centers.lemma_filter_len_push(on_line_pred(), arrival);
}

/// Keeping one more center raises the tally by the crossings among all centers then held.
pub proof fn lemma_running_total_push(centers: Seq<Point>, arrival: Point)
    ensures
        running_total(centers.push(arrival)) == running_total(centers) + crossings(
            centers.push(arrival),
        ),
{
    assert(centers.push(arrival).drop_last() =~= centers);
}

/// A center on the line is counted again with every vehicle that arrives after it:
/// an arrival raises the tally by at least the crossings among the centers already held.
pub proof fn lemma_counted_again(centers: Seq<Point>, arrival: Point)
    ensures
        running_total(centers.push(arrival)) >= running_total(centers) + crossings(centers),
{
    lemma_running_total_push(centers, arrival);
    lemma_crossings_push(centers, arrival);
}

/// While no center is on the line the tally stays at zero.
pub proof fn lemma_quiet_line(centers: Seq<Point>)
    requires
        forall|i: int| 0 <= i < centers.len() ==> !on_line(#[trigger] centers[i]),
    ensures
        crossings(centers) == 0,
        running_total(centers) == 0,
    decreases centers.len(),
{
    if centers.len() == 0 {
        lemma_crossings_empty();
    } else {
        let rest = centers.drop_last();
        lemma_quiet_line(rest);
        assert(rest.push(centers.last()) =~= centers);
        lemma_crossings_push(rest, centers.last());
    }
}

/// With one more center kept, each of the first `n` centers that is on the line has been
/// counted once more.
proof fn lemma_counted_among_push(centers: Seq<Point>, arrival: Point, n: int)
    requires
        0 <= n <= centers.len(),
    ensures
        counted_among(centers.push(arrival), n) == counted_among(centers, n) + crossings(
            centers.take(n),
        ),
    decreases n,
{
    if n == 0 {
        assert(centers.take(0) =~= Seq::<Point>::empty());
        lemma_crossings_empty();
    } else {
        lemma_counted_among_push(centers, arrival, n - 1);
        assert(centers.take(n) =~= centers.take(n - 1).push(centers[n - 1]));
        lemma_crossings_push(centers.take(n - 1), centers[n - 1]);
        assert(centers.push(arrival)[n - 1] == centers[n - 1]);
    }
}

/// The tally is the sum, over the centers kept, of how often each has been counted:
/// a center on the line counts once for itself and once for every vehicle after it.
pub proof fn lemma_total_by_center(centers: Seq<Point>)
    ensures
        running_total(centers) == counted_among(centers, centers.len() as int),
    decreases centers.len(),
{
    if centers.len() > 0 {
        let rest = centers.drop_last();
        let n = rest.len() as int;
        assert(rest.push(centers.last()) =~= centers);
        lemma_total_by_center(rest);
        lemma_counted_among_push(rest, centers.last(), n);
        assert(rest.take(n) =~= rest);
        lemma_crossings_push(rest, centers.last());
    }
}

} // verus!
