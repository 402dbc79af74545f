//! The distance engine: every unordered pair of fingerprinted items, scored
//! by Hamming distance.
use crate::fingerprint::{hamming, hamming_distance, lemma_distance_symmetric, Fingerprint};
use itertools::Itertools;
use vstd::prelude::*;

verus! {

/// An item that has been fingerprinted, named by its path.
#[derive(Clone, Debug)]
pub struct Fingerprinted {
    pub path: String,
    pub fingerprint: Fingerprint,
}

/// Two items, named by their positions in the fingerprinted list
/// (`first < second`), and the Hamming distance between their fingerprints.
#[derive(Clone, Copy, Debug, PartialEq, Eq, Structural)]
pub struct ScoredPair {
    pub first: usize,
    pub second: usize,
    pub distance: u32,
}

/// The pairs `(i, j)` with `start <= i < j < n`, in lexicographic order.
pub open spec fn pairs_from(start: nat, n: nat) -> Seq<(usize, usize)>
    decreases n - start,
{
    if start >= n {
        Seq::empty()
    } else {
        Seq::new((n - start - 1) as nat, |k: int| (start as usize, (start + 1 + k) as usize))
            + pairs_from(start + 1, n)
    }
}

/// All unordered pairs of positions below `n`, smaller position first, in
/// lexicographic order.
pub open spec fn all_pairs(n: nat) -> Seq<(usize, usize)> {
    pairs_from(0, n)
}

/// Every fingerprint of the list is short enough for its distances to fit
/// in a `u32`.
pub open spec fn fingerprints_fit(items: Seq<Fingerprinted>) -> bool {
    forall|i: int| 0 <= i < items.len() ==> #[trigger] items[i].fingerprint.bytes@.len() * 8 <= u32::MAX
}

/// The scored form of the pair `(i, j)` of `items`.
pub open spec fn scored(items: Seq<Fingerprinted>, i: usize, j: usize) -> ScoredPair {
    ScoredPair {
        first: i,
        second: j,
        distance: hamming(items[i as int].fingerprint.bytes@, items[j as int].fingerprint.bytes@) as u32,
    }
}

/// The longest fingerprint, in bytes, whose bit count fits in a `u32`:
/// `u32::MAX / 8`.
pub const MAX_FINGERPRINT_BYTES: usize = 536870911;

/// Whether every fingerprint of `items` is short enough for its distances
/// to fit in a `u32`.
pub fn all_fingerprints_fit(items: &Vec<Fingerprinted>) -> (r: bool)
    ensures
        r == fingerprints_fit(items@),
{
    let mut i: usize = 0;
    while i < items.len()
        invariant
            i <= items@.len(),
            forall|k: int| 0 <= k < i ==> #[trigger] items@[k].fingerprint.bytes@.len() * 8 <= u32::MAX,
        decreases items@.len() - i,
    {
        if items[i].fingerprint.bytes.len() > MAX_FINGERPRINT_BYTES {
            return false;
        }
        i = i + 1;
    }
    true
}

/// Relies on itertools' `tuple_combinations` over `0..n`: each pair `(i, j)`
/// with `i < j < n`, once, in lexicographic order.
#[verifier::external_body]
fn range_pairs(n: usize) -> (r: Vec<(usize, usize)>)
    ensures
        r@ == all_pairs(n as nat),
{
    (0..n).tuple_combinations::<(usize, usize)>().collect()
}

/// All unordered pairs of positions below `n`, each once, smaller position
/// first, in lexicographic order.
pub fn combinations(n: usize) -> (r: Vec<(usize, usize)>)
    ensures
        r@ == all_pairs(n as nat),
        r@.len() == n * (n - 1) / 2,
        forall|k: int| 0 <= k < r@.len() ==> ordered_within(#[trigger] r@[k], 0, n as nat),
        forall|i: usize, j: usize| i < j < n ==> r@.contains((i, j)),
        r@.no_duplicates(),
{
    let r = range_pairs(n);
    proof {
        lemma_all_pairs(n as nat);
    }
    r
}

/// Scores the pair `(i, j)` of `items`.
pub fn score_pair(items: &Vec<Fingerprinted>, i: usize, j: usize) -> (r: ScoredPair)
    requires
        i < items@.len(),
        j < items@.len(),
        fingerprints_fit(items@),
    ensures
        r == scored(items@, i, j),
{
    let ghost a = items@[i as int].fingerprint.bytes@;
    assert(a.len() * 8 <= u32::MAX);
    let d = hamming_distance(&items[i].fingerprint, &items[j].fingerprint);
    ScoredPair { first: i, second: j, distance: d }
}

/// Scores every unordered pair of `items`, in the order of
/// [`combinations`].
pub fn pair_distances(items: &Vec<Fingerprinted>) -> (r: Vec<ScoredPair>)
    requires
        fingerprints_fit(items@),
    ensures
        r@.len() == all_pairs(items@.len()).len(),
        forall|k: int|
            0 <= k < r@.len() ==> #[trigger] r@[k] == scored(
                items@,
                all_pairs(items@.len())[k].0,
                all_pairs(items@.len())[k].1,
            ),
{
    let pairs = combinations(items.len());
    let mut r: Vec<ScoredPair> = Vec::new();
    let mut k: usize = 0;
    while k < pairs.len()
        invariant
            pairs@ == all_pairs(items@.len()),
            forall|m: int| 0 <= m < pairs@.len() ==> ordered_within(#[trigger] pairs@[m], 0, items@.len()),
            fingerprints_fit(items@),
            k <= pairs@.len(),
            r@.len() == k,
            forall|m: int| 0 <= m < k ==> #[trigger] r@[m] == scored(items@, pairs@[m].0, pairs@[m].1),
        decreases pairs@.len() - k,
    {
        let (i, j) = pairs[k];
        assert(ordered_within(pairs@[k as int], 0, items@.len()));
        let s = score_pair(items, i, j);
        r.push(s);
        k = k + 1;
    }
    r
}

/// `p` is a pair of positions `lo <= p.0 < p.1 < n`.
pub open spec fn ordered_within(p: (usize, usize), lo: nat, n: nat) -> bool {
    lo <= p.0 < p.1 < n
}

proof fn lemma_pairs_from(start: nat, n: nat)
    requires
        start <= n <= usize::MAX,
    ensures
        2 * pairs_from(start, n).len() == (n - start) * (n - start - 1),
        forall|k: int|
            0 <= k < pairs_from(start, n).len() ==> ordered_within(#[trigger] pairs_from(start, n)[k], start, n),
        forall|i: usize, j: usize| start <= i < j < n ==> pairs_from(start, n).contains((i, j)),
        pairs_from(start, n).no_duplicates(),
    decreases n - start,
{
    if start < n {
        let head = Seq::new((n - start - 1) as nat, |k: int| (start as usize, (start + 1 + k) as usize));
        let tail = pairs_from(start + 1, n);
        lemma_pairs_from(start + 1, n);
        let s = pairs_from(start, n);
        assert(s == head + tail);
        assert(s.len() == head.len() + tail.len());
        let m = n - start - 1;
        assert(2 * s.len() == (n - start) * (n - start - 1)) by (nonlinear_arith)
            requires
                s.len() == m + tail.len(),
                2 * tail.len() == m * (m - 1),
                m == n - start - 1,
                m >= 0,
        ;
        assert forall|k: int| 0 <= k < s.len() implies ordered_within(#[trigger] s[k], start, n) by {
            if k >= head.len() {
                let kt = k - head.len();
                assert(s[k] == tail[kt]);
                assert(ordered_within(tail[kt], start + 1, n));
            } else {
                assert(s[k] == head[k]);
            }
        }
        assert forall|i: usize, j: usize| start <= i < j < n implies s.contains((i, j)) by {
            if i == start {
                let k = j - start - 1;
                assert(s[k] == head[k]);
                assert(s[k] == (i, j));
            } else {
                assert(tail.contains((i, j)));
                let kt = choose|kt: int| 0 <= kt < tail.len() && tail[kt] == (i, j);
                assert(s[head.len() + kt] == (i, j));
            }
        }
        assert forall|a: int, b: int| 0 <= a < s.len() && 0 <= b < s.len() && a != b implies s[a]
            != s[b] by {
            if a >= head.len() {
                let at = a - head.len();
                assert(s[a] == tail[at]);
                assert(ordered_within(tail[at], start + 1, n));
            } else {
                assert(s[a] == head[a]);
            }
            if b >= head.len() {
                let bt = b - head.len();
                assert(s[b] == tail[bt]);
                assert(ordered_within(tail[bt], start + 1, n));
            } else {
                assert(s[b] == head[b]);
            }
        }
    } else {
        assert((n - start) * (n - start - 1) == 0) by (nonlinear_arith)
            requires
                n == start,
        ;
    }
}

/// The pair list of `n` positions holds `n * (n - 1) / 2` pairs, smaller
/// position first, and each unordered pair exactly once.
pub proof fn lemma_all_pairs(n: nat)
    requires
        n <= usize::MAX,
    ensures
        all_pairs(n).len() == n * (n - 1) / 2,
        forall|k: int| 0 <= k < all_pairs(n).len() ==> ordered_within(#[trigger] all_pairs(n)[k], 0, n),
        forall|i: usize, j: usize| i < j < n ==> all_pairs(n).contains((i, j)),
        all_pairs(n).no_duplicates(),
{
    lemma_pairs_from(0, n);
}

/// A pair scores the same distance whichever of its items comes first, and
/// items with equal fingerprints score zero.
pub proof fn lemma_scored_symmetric(items: Seq<Fingerprinted>, i: usize, j: usize)
    requires
        i < items.len(),
        j < items.len(),
    ensures
        scored(items, i, j).distance == scored(items, j, i).distance,
        items[i as int].fingerprint.bytes@ == items[j as int].fingerprint.bytes@ ==> scored(
            items,
            i,
            j,
        ).distance == 0,
{
    lemma_distance_symmetric(items[i as int].fingerprint, items[j as int].fingerprint);
}

} // verus!
