//! From descriptor matches to the point correspondences a homography is fitted to.
//!
//! A matcher pairs each query descriptor with its nearest train descriptors and reports
//! the pairings in groups, one group per query descriptor. Each pairing names a key point
//! of either image by its index. Before a homography can be estimated the groups are laid
//! end to end and every index is held against the number of key points it refers to.

use vstd::prelude::*;
use vstd::seq_lib::lemma_flatten_concat;
use crate::geometry::Point;

verus! {

/// The two indices carried by one descriptor match.
#[derive(Clone, Copy, Debug, PartialEq, Eq, Structural)]
pub struct MatchIndices {
    /// Index of the key point in the query image.
    pub query_idx: i32,
    /// Index of the key point in the train image.
    pub train_idx: i32,
}

/// One correspondence: positions of two key points in their lists.
#[derive(Clone, Copy, Debug, PartialEq, Eq, Structural)]
pub struct IndexPair {
    pub query: usize,
    pub train: usize,
}

/// Why no correspondences were produced.
#[derive(Clone, Copy, Debug, PartialEq, Eq, Structural)]
pub enum PairingError {
    /// Fewer groups of matches than a homography needs.
    TooFewMatches,
    /// Some match names a key point that does not exist. `found` is the first such
    /// match and `at` its place among all matches, counted from zero.
    IndexOutOfRange { at: usize, found: MatchIndices },
}

/// A homography is only attempted from at least this many groups of matches.
pub const MIN_MATCHES: usize = 4;

/// The groups laid end to end.
pub open spec fn flat(groups: Seq<Vec<MatchIndices>>) -> Seq<MatchIndices> {
    groups.map_values(|g: Vec<MatchIndices>| g@).flatten()
}

/// Both indices of `m` name a key point, given how many each image has.
pub open spec fn valid(m: MatchIndices, n_query: nat, n_train: nat) -> bool {
    &&& 0 <= m.query_idx < n_query
    &&& 0 <= m.train_idx < n_train
}

/// Every match of `ms` is valid.
pub open spec fn all_valid(ms: Seq<MatchIndices>, n_query: nat, n_train: nat) -> bool {
    forall|k: int| 0 <= k < ms.len() ==> valid(#[trigger] ms[k], n_query, n_train)
}

/// The match at place `k` is not valid, and every match before it is.
pub open spec fn first_invalid(ms: Seq<MatchIndices>, n_query: nat, n_train: nat, k: int) -> bool {
    &&& 0 <= k < ms.len()
    &&& !valid(ms[k], n_query, n_train)
    &&& all_valid(ms.take(k), n_query, n_train)
}

/// The indices of a match as list positions.
pub open spec fn as_pair(m: MatchIndices) -> IndexPair {
    IndexPair { query: m.query_idx as usize, train: m.train_idx as usize }
}

/// `as_pair` of each match, in order.
pub open spec fn pairs_of(ms: Seq<MatchIndices>) -> Seq<IndexPair> {
    ms.map_values(|m: MatchIndices| as_pair(m))
}

/// The corners of a frame of the given size, starting at the origin and going down the
/// left edge first: top-left, bottom-left, bottom-right, top-right.
pub open spec fn corners_of(width: int, height: int) -> Seq<Point> {
    seq![
        Point { x: 0, y: 0 },
        Point { x: 0, y: (height - 1) as i32 },
        Point { x: (width - 1) as i32, y: (height - 1) as i32 },
        Point { x: (width - 1) as i32, y: 0 },
    ]
}

/// Tells whether there are enough groups of matches to attempt a homography.
pub fn enough_matches(count: usize) -> (b: bool)
    ensures
        b == (count >= MIN_MATCHES),
{
    count >= MIN_MATCHES
}

/// Tells whether both indices of `m` name a key point.
pub fn is_valid(m: &MatchIndices, n_query: usize, n_train: usize) -> (b: bool)
    ensures
        b == valid(*m, n_query as nat, n_train as nat),
{
    m.query_idx >= 0 && (m.query_idx as usize) < n_query && m.train_idx >= 0 && (
    m.train_idx as usize) < n_train
}

/// Turns groups of matches into correspondences, group after group and in each group
/// match after match.
///
/// Fails with `TooFewMatches` when there are fewer than `MIN_MATCHES` groups, whatever
/// they hold; otherwise with `IndexOutOfRange` when any match is not valid for `n_query`
/// and `n_train` key points, naming the first such match.
pub fn point_pairs(groups: &Vec<Vec<MatchIndices>>, n_query: usize, n_train: usize) -> (out:
    Result<Vec<IndexPair>, PairingError>)
    ensures
        match out {
            Ok(pairs) => {
                &&& groups.len() >= MIN_MATCHES
                &&& all_valid(flat(groups@), n_query as nat, n_train as nat)
                &&& pairs@ == pairs_of(flat(groups@))
            },
            Err(PairingError::TooFewMatches) => groups.len() < MIN_MATCHES,
            Err(PairingError::IndexOutOfRange { at, found }) => {
                &&& groups.len() >= MIN_MATCHES
                &&& first_invalid(flat(groups@), n_query as nat, n_train as nat, at as int)
                &&& found == flat(groups@)[at as int]
            },
        },
{
    if !enough_matches(groups.len()) {
        return Err(PairingError::TooFewMatches);
    }
    let mut pairs: Vec<IndexPair> = Vec::new();
    let mut i: usize = 0;
    proof {
        assert(groups@.take(0) =~= Seq::<Vec<MatchIndices>>::empty());
        assert(flat(groups@.take(0)) =~= Seq::<MatchIndices>::empty());
    }
    while i < groups.len()
        invariant
            i <= groups.len(),
            groups.len() >= MIN_MATCHES,
            all_valid(flat(groups@.take(i as int)), n_query as nat, n_train as nat),
            pairs@ =~= pairs_of(flat(groups@.take(i as int))),
        decreases groups.len() - i,
    {
        let group = &groups[i];
        let ghost done = flat(groups@.take(i as int));
        let mut j: usize = 0;
        proof {
            assert(group@.take(0) =~= Seq::<MatchIndices>::empty());
            assert(done + group@.take(0) =~= done);
            lemma_flat_take_next(groups@, i as int);
        }
        while j < group.len()
            invariant
                j <= group.len(),
                i < groups.len(),
                groups.len() >= MIN_MATCHES,
                group@ == groups@[i as int]@,
                done == flat(groups@.take(i as int)),
                flat(groups@.take(i as int + 1)) == done + group@,
                all_valid(done + group@.take(j as int), n_query as nat, n_train as nat),
                pairs@ =~= pairs_of(done + group@.take(j as int)),
            decreases group.len() - j,
        {
            let m = group[j];
            if !is_valid(&m, n_query, n_train) {
                let at: usize = pairs.len();
                proof {
                    lemma_flat_prefix(groups@, i as int + 1);
                    let upto = flat(groups@.take(i as int + 1));
                    assert(at == done.len() + j);
                    assert(upto[at as int] == m);
                    assert(upto == flat(groups@).subrange(0, upto.len() as int));
                    assert(flat(groups@)[at as int] == m);
                    assert(flat(groups@).take(at as int) =~= done + group@.take(j as int));
                }
                return Err(PairingError::IndexOutOfRange { at, found: m });
            }
            pairs.push(IndexPair { query: m.query_idx as usize, train: m.train_idx as usize });
            proof {
                assert(done + group@.take(j as int + 1) =~= (done + group@.take(j as int)).push(
                    m,
                ));
            }
            j = j + 1;
        }
        proof {
            assert(group@.take(group.len() as int) =~= group@);
        }
        i = i + 1;
    }
    proof {
        assert(groups@.take(groups.len() as int) =~= groups@);
    }
    Ok(pairs)
}

/// The four corners of a frame `width` wide and `height` high, as pixel positions:
/// top-left, bottom-left, bottom-right, top-right.
pub fn frame_corners(width: i32, height: i32) -> (corners: Vec<Point>)
    requires
        width > i32::MIN,
        height > i32::MIN,
    ensures
        corners@ == corners_of(width as int, height as int),
{
    let mut corners: Vec<Point> = Vec::new();
    corners.push(Point { x: 0, y: 0 });
    corners.push(Point { x: 0, y: height - 1 });
    corners.push(Point { x: width - 1, y: height - 1 });
    corners.push(Point { x: width - 1, y: 0 });
    corners
}

/// Where a first invalid match exists, not all matches are valid, and no other place
/// is the first.
pub proof fn lemma_first_invalid_is_unique(
    ms: Seq<MatchIndices>,
    n_query: nat,
    n_train: nat,
    k: int,
    other: int,
)
    requires
        first_invalid(ms, n_query, n_train, k),
        first_invalid(ms, n_query, n_train, other),
    ensures
        !all_valid(ms, n_query, n_train),
        k == other,
{
    if k < other {
        assert(ms.take(other)[k] == ms[k]);
    } else if other < k {
        assert(ms.take(k)[other] == ms[other]);
    }
}

/// Laying one more group at the end appends its matches.
proof fn lemma_flat_take_next(groups: Seq<Vec<MatchIndices>>, i: int)
    requires
        0 <= i < groups.len(),
    ensures
        flat(groups.take(i + 1)) == flat(groups.take(i)) + groups[i]@,
{
    let views = |g: Vec<MatchIndices>| g@;
    assert(groups.take(i + 1).map_values(views) =~= groups.take(i).map_values(views).push(
        groups[i]@,
    ));
    groups.take(i).map_values(views).lemma_flatten_push(groups[i]@);
}

/// The matches of the first `i` groups open the matches of all groups.
proof fn lemma_flat_prefix(groups: Seq<Vec<MatchIndices>>, i: int)
    requires
        0 <= i <= groups.len(),
    ensures
        flat(groups.take(i)).is_prefix_of(flat(groups)),
{
    let views = |g: Vec<MatchIndices>| g@;
    let head = groups.take(i).map_values(views);
    let tail = groups.skip(i).map_values(views);
    assert(groups.map_values(views) =~= head + tail);
    lemma_flatten_concat(head, tail);
}

} // verus!
