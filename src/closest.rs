//! Closest-hit selection for a composite scene.
//!
//! Each member of the scene is traced over the same search interval and
//! reports the parameter of its nearest accepted intersection, as an order key
//! (a `u32` that orders as the parameters do), or `None` for a miss. The scene
//! hits where its closest member does; among members at the same distance the
//! first one wins.
use vstd::prelude::*;

verus! {

broadcast use vstd::seq_lib::group_to_multiset_ensures;

/// No member reports a hit.
pub open spec fn no_hit(cands: Seq<Option<u32>>) -> bool {
    forall|j: int| 0 <= j < cands.len() ==> #[trigger] cands[j] is None
}

/// Member `i` reports a hit that is strictly closer than every earlier hit and
/// no farther than every later one.
pub open spec fn is_closest(cands: Seq<Option<u32>>, i: int) -> bool {
    &&& 0 <= i < cands.len()
    &&& cands[i] is Some
    &&& forall|j: int|
        0 <= j < i && #[trigger] cands[j] is Some ==> cands[i]->0 < cands[j]->0
    &&& forall|j: int|
        i < j < cands.len() && #[trigger] cands[j] is Some ==> cands[i]->0 <= cands[j]->0
}

/// The index of the member that the scene reports as hit: the first one at
/// the least distance, or `None` when every member misses.
pub fn closest_hit(cands: &Vec<Option<u32>>) -> (r: Option<usize>)
    ensures
        r is None <==> no_hit(cands@),
        r matches Some(i) ==> is_closest(cands@, i as int),
{
    let mut best: Option<usize> = None;
    let mut best_key: u32 = 0;
    let mut i: usize = 0;
    while i < cands.len()
        invariant
            i <= cands@.len(),
            best is None ==> no_hit(cands@.take(i as int)),
            best matches Some(b) ==> is_closest(cands@.take(i as int), b as int) && cands@[b as int]
                == Some(best_key),
        decreases cands@.len() - i,
    {
        if let Some(k) = cands[i] {
            if best.is_none() || k < best_key {
                best = Some(i);
                best_key = k;
            }
        }
        i = i + 1;
        assert(cands@.take(i as int) =~= cands@.take(i - 1).push(cands@[i - 1]));
    }
    assert(cands@.take(i as int) =~= cands@);
    best
}

proof fn lemma_closest_is_least(s: Seq<Option<u32>>, i: int, k: int)
    requires
        is_closest(s, i),
        0 <= k < s.len(),
        s[k] is Some,
    ensures
        s[i]->0 <= s[k]->0,
{
    if k < i {
    } else if k > i {
    }
}

proof fn lemma_same_members(a: Seq<Option<u32>>, b: Seq<Option<u32>>, x: Option<u32>)
    requires
        a.to_multiset() == b.to_multiset(),
    ensures
        a.contains(x) == b.contains(x),
{
    assert(a.contains(x) <==> a.to_multiset().count(x) > 0);
    assert(b.contains(x) <==> b.to_multiset().count(x) > 0);
}

/// The scene's closest hit does not depend on the order in which its members
/// were added: reordering the members' reports keeps the reported distance.
pub proof fn lemma_closest_independent_of_order(
    a: Seq<Option<u32>>,
    b: Seq<Option<u32>>,
    i: int,
    j: int,
)
    requires
        a.to_multiset() == b.to_multiset(),
        is_closest(a, i),
        is_closest(b, j),
    ensures
        a[i] == b[j],
{
    assert(a.contains(a[i]));
    lemma_same_members(a, b, a[i]);
    let k = choose|k: int| 0 <= k < b.len() && b[k] == a[i];
    lemma_closest_is_least(b, j, k);
    assert(b.contains(b[j]));
    lemma_same_members(a, b, b[j]);
    let l = choose|l: int| 0 <= l < a.len() && a[l] == b[j];
    lemma_closest_is_least(a, i, l);
}

/// Reordering the members' reports does not turn a miss into a hit or back.
pub proof fn lemma_no_hit_independent_of_order(a: Seq<Option<u32>>, b: Seq<Option<u32>>)
    requires
        a.to_multiset() == b.to_multiset(),
    ensures
        no_hit(a) == no_hit(b),
{
    if !no_hit(a) {
        let k = choose|k: int| 0 <= k < a.len() && a[k] is Some;
        assert(a.contains(a[k]));
        lemma_same_members(a, b, a[k]);
    }
    if !no_hit(b) {
        let k = choose|k: int| 0 <= k < b.len() && b[k] is Some;
        assert(b.contains(b[k]));
        lemma_same_members(a, b, b[k]);
    }
}

} // verus!
