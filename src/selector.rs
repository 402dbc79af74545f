//! The duplicate selector: keeps the scored pairs within a distance
//! threshold, orders them for reporting, and collects the items they name.
use crate::pairs::ScoredPair;
use itertools::Itertools;
use std::collections::HashSet;
use vstd::prelude::*;

verus! {

/// The pairs of `pairs` whose distance is at most `threshold`, in their
/// original order.
pub open spec fn within(pairs: Seq<ScoredPair>, threshold: u32) -> Seq<ScoredPair> {
    pairs.filter(|p: ScoredPair| p.distance <= threshold)
}

/// The pairs of `pairs` at distance exactly `d`, in their original order.
pub open spec fn at_distance(pairs: Seq<ScoredPair>, d: u32) -> Seq<ScoredPair> {
    pairs.filter(|p: ScoredPair| p.distance == d)
}

/// Distances never decrease along `pairs`.
pub open spec fn sorted_by_distance(pairs: Seq<ScoredPair>) -> bool {
    forall|a: int, b: int| 0 <= a < b < pairs.len() ==> #[trigger] pairs[a].distance <= #[trigger] pairs[b].distance
}

/// `x` is one of the two items of some pair of `pairs`.
pub open spec fn implicated(pairs: Seq<ScoredPair>, x: usize) -> bool {
    exists|k: int| 0 <= k < pairs.len() && (#[trigger] pairs[k].first == x || pairs[k].second == x)
}

/// Keeps the pairs whose distance is at most `threshold` (inclusive), in
/// their original order.
pub fn filter_max_dist(pairs: &Vec<ScoredPair>, threshold: u32) -> (r: Vec<ScoredPair>)
    ensures
        r@ == within(pairs@, threshold),
{
    let mut r: Vec<ScoredPair> = Vec::new();
    let mut i: usize = 0;
    while i < pairs.len()
        invariant
            i <= pairs@.len(),
            r@ == within(pairs@.subrange(0, i as int), threshold),
        decreases pairs@.len() - i,
    {
        let p = pairs[i];
        proof {
            let pred = |q: ScoredPair| q.distance <= threshold;
            assert(pairs@.subrange(0, i + 1).drop_last() =~= pairs@.subrange(0, i as int));
            reveal(Seq::filter);
            assert(pairs@.subrange(0, i + 1).filter(pred) == if pred(p) {
                pairs@.subrange(0, i as int).filter(pred).push(p)
            } else {
                pairs@.subrange(0, i as int).filter(pred)
            });
        }
        if p.distance <= threshold {
            r.push(p);
        }
        i = i + 1;
    }
    assert(pairs@.subrange(0, pairs@.len() as int) =~= pairs@);
    r
}

/// Relies on itertools' `sorted_by_key`, which sorts with std's stable
/// `slice::sort_by_key`: ascending by distance, pairs of equal distance in
/// their original order.
#[verifier::external_body]
fn stable_sort_by_distance(pairs: Vec<ScoredPair>) -> (r: Vec<ScoredPair>)
    ensures
        sorted_by_distance(r@),
        forall|d: u32| #[trigger] at_distance(r@, d) == at_distance(pairs@, d),
{
    pairs.into_iter().sorted_by_key(|p| p.distance).collect()
}

/// Orders pairs for reporting: ascending by distance, ties kept in their
/// original relative order.
pub fn sort_for_report(pairs: Vec<ScoredPair>) -> (r: Vec<ScoredPair>)
    ensures
        sorted_by_distance(r@),
        forall|d: u32| #[trigger] at_distance(r@, d) == at_distance(pairs@, d),
{
    stable_sort_by_distance(pairs)
}

/// Appends `x` to `v` unless `seen`, the set of the items of `v`, holds it.
fn insert_item(v: &mut Vec<usize>, seen: &mut HashSet<usize>, x: usize)
    requires
        old(v)@.no_duplicates(),
        forall|y: usize| old(seen)@.contains(y) <==> old(v)@.contains(y),
    ensures
        final(v)@.no_duplicates(),
        forall|y: usize| final(v)@.contains(y) <==> (old(v)@.contains(y) || y == x),
        forall|y: usize| final(seen)@.contains(y) <==> final(v)@.contains(y),
{
    broadcast use vstd::std_specs::hash::group_hash_axioms;

    if seen.insert(x) {
        let ghost before = v@;
        v.push(x);
        assert forall|y: usize| v@.contains(y) <==> (before.contains(y) || y == x) by {
            if before.contains(y) {
                let k = choose|k: int| 0 <= k < before.len() && before[k] == y;
                assert(v@[k] == y);
            }
            if y == x {
                assert(v@[before.len() as int] == x);
            }
        }
    }
}

/// The distinct items named by any pair of `pairs`, each once.
pub fn duplicate_set(pairs: &Vec<ScoredPair>) -> (r: Vec<usize>)
    ensures
        r@.no_duplicates(),
        forall|x: usize| r@.contains(x) <==> implicated(pairs@, x),
{
    let mut r: Vec<usize> = Vec::new();
    let mut seen: HashSet<usize> = HashSet::new();
    let mut i: usize = 0;
    while i < pairs.len()
        invariant
            i <= pairs@.len(),
            r@.no_duplicates(),
            forall|y: usize| seen@.contains(y) <==> r@.contains(y),
            forall|x: usize| r@.contains(x) <==> implicated(pairs@.subrange(0, i as int), x),
        decreases pairs@.len() - i,
    {
        let p = pairs[i];
        insert_item(&mut r, &mut seen, p.first);
        insert_item(&mut r, &mut seen, p.second);
        proof {
            let prev = pairs@.subrange(0, i as int);
            let next = pairs@.subrange(0, i + 1);
            assert forall|x: usize| implicated(next, x) <==> (implicated(prev, x) || x == p.first || x == p.second) by {
                if implicated(prev, x) {
                    let k = choose|k: int| 0 <= k < prev.len() && (#[trigger] prev[k].first == x || prev[k].second == x);
                    assert(next[k] == prev[k]);
                }
                if implicated(next, x) {
                    let k = choose|k: int| 0 <= k < next.len() && (#[trigger] next[k].first == x || next[k].second == x);
                    if k < i {
                        assert(prev[k] == pairs@[k]);
                        assert(next[k] == pairs@[k]);
                        assert(prev[k].first == x || prev[k].second == x);
                    } else {
                        assert(next[k] == p);
                    }
                }
                if x == p.first || x == p.second {
                    assert(next[i as int] == p);
                }
            }
        }
        i = i + 1;
    }
    assert(pairs@.subrange(0, pairs@.len() as int) =~= pairs@);
    r
}

/// Raising the threshold never drops a pair that a lower threshold kept.
pub proof fn lemma_threshold_monotonic(pairs: Seq<ScoredPair>, low: u32, high: u32, p: ScoredPair)
    requires
        low <= high,
        within(pairs, low).contains(p),
    ensures
        within(pairs, high).contains(p),
{
    broadcast use vstd::seq_lib::group_filter_ensures;

    let lo = within(pairs, low);
    let k = choose|k: int| 0 <= k < lo.len() && lo[k] == p;
    assert(p.distance <= low);
    pairs.lemma_filter_contains_rev(|q: ScoredPair| q.distance <= low, p);
    let j = choose|j: int| 0 <= j < pairs.len() && pairs[j] == p;
    pairs.lemma_filter_contains(|q: ScoredPair| q.distance <= high, j);
}

} // verus!
