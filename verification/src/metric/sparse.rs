//! Storage of the metrics of a metric vec: dense cells indexed by position, and sparse
//! entries found by comparing ids.

use vstd::prelude::*;

use crate::metric::MetricType;

verus! {

/// The number of initialised cells.
pub open spec fn count_some<M>(v: Seq<Option<M>>) -> nat
    decreases v.len(),
{
    if v.len() == 0 {
        0
    } else {
        count_some(v.drop_last()) + if v.last() is Some {
            1nat
        } else {
            0nat
        }
    }
}

/// Cells that are all uninitialised count zero.
pub proof fn lemma_count_none<M>(v: Seq<Option<M>>)
    requires
        forall|i: int| 0 <= i < v.len() ==> #[trigger] v[i] is None,
    ensures
        count_some(v) == 0,
    decreases v.len(),
{
    if v.len() > 0 {
        lemma_count_none(v.drop_last());
    }
}

/// Cells that are all initialised count their number.
pub proof fn lemma_count_all_some<M>(v: Seq<Option<M>>)
    requires
        forall|i: int| 0 <= i < v.len() ==> #[trigger] v[i] is Some,
    ensures
        count_some(v) == v.len(),
    decreases v.len(),
{
    if v.len() > 0 {
        lemma_count_all_some(v.drop_last());
    }
}

/// Initialising a cell adds one to the count if it was uninitialised.
pub proof fn lemma_count_some_update<M>(v: Seq<Option<M>>, i: int, x: M)
    requires
        0 <= i < v.len(),
    ensures
        count_some(v.update(i, Some(x))) == count_some(v) + if v[i] is None {
            1nat
        } else {
            0nat
        },
    decreases v.len(),
{
    let w: Seq<Option<M>> = v.update(i, Some(x));
    if i == v.len() - 1 {
        assert(w.drop_last() =~= v.drop_last());
    } else {
        lemma_count_some_update(v.drop_last(), i, x);
        assert(w.drop_last() =~= v.drop_last().update(i, Some(x)));
        assert(w.last() == v.last());
    }
}

/// Counts the initialised cells.
pub fn count_initialized<M>(v: &Vec<Option<M>>) -> (n: usize)
    ensures
        n == count_some(v@),
{
    let len: usize = v.len();
    let mut i: usize = 0;
    let mut n: usize = 0;
    while i < len
        invariant
            len == v@.len(),
            i <= len,
            n == count_some(v@.subrange(0, i as int)),
            n <= i,
        decreases len - i,
    {
        proof {
            assert(v@.subrange(0, i + 1).drop_last() == v@.subrange(0, i as int));
        }
        if v[i].is_some() {
            n = n + 1;
        }
        i = i + 1;
    }
    proof {
        assert(v@.subrange(0, len as int) == v@);
    }
    n
}

/// Exclusive access to an initialised cell.
pub fn dense_slot_mut<M>(v: &mut Vec<Option<M>>, i: usize) -> (r: &mut M)
    requires
        i < old(v)@.len(),
        old(v)@[i as int] is Some,
    ensures
        *r == old(v)@[i as int]->0,
        final(v)@ == old(v)@.update(i as int, Some(*final(r))),
{
    let slot: &mut Option<M> = &mut v[i];
    match slot {
        Some(m) => m,
        None => vstd::pervasive::unreached(),
    }
}

/// The map from ids to metrics that a list of entries holds; later entries win.
pub open spec fn sparse_map<U, M>(es: Seq<(U, M)>) -> Map<U, M>
    decreases es.len(),
{
    if es.len() == 0 {
        Map::empty()
    } else {
        sparse_map(es.drop_last()).insert(es.last().0, es.last().1)
    }
}

/// No id occurs twice among the entries.
pub open spec fn distinct_keys<U, M>(es: Seq<(U, M)>) -> bool {
    forall|i: int, j: int| 0 <= i < j < es.len() ==> #[trigger] es[i].0 != #[trigger] es[j].0
}

/// The ids of the map are the ids of the entries.
pub proof fn lemma_map_dom<U, M>(es: Seq<(U, M)>, k: U)
    ensures
        sparse_map(es).dom().contains(k) <==> exists|i: int| 0 <= i < es.len() && #[trigger] es[i].0 == k,
    decreases es.len(),
{
    if es.len() > 0 {
        lemma_map_dom(es.drop_last(), k);
        if sparse_map(es.drop_last()).dom().contains(k) {
            let i: int = choose|i: int| 0 <= i < es.drop_last().len() && #[trigger] es.drop_last()[i].0 == k;
            assert(es[i].0 == k);
        }
        if exists|i: int| 0 <= i < es.len() && #[trigger] es[i].0 == k {
            let i: int = choose|i: int| 0 <= i < es.len() && #[trigger] es[i].0 == k;
            if i < es.len() - 1 {
                assert(es.drop_last()[i].0 == k);
            }
        }
    }
}

/// With distinct ids, the map holds each entry's metric under its id.
pub proof fn lemma_map_at<U, M>(es: Seq<(U, M)>, i: int)
    requires
        distinct_keys(es),
        0 <= i < es.len(),
    ensures
        sparse_map(es).dom().contains(es[i].0),
        sparse_map(es)[es[i].0] == es[i].1,
    decreases es.len(),
{
    if i < es.len() - 1 {
        assert(es.drop_last()[i] == es[i]);
        lemma_map_at(es.drop_last(), i);
    }
}

/// Replacing an entry's metric replaces it in the map.
pub proof fn lemma_map_update<U, M>(es: Seq<(U, M)>, i: int, x: M)
    requires
        distinct_keys(es),
        0 <= i < es.len(),
    ensures
        sparse_map(es.update(i, (es[i].0, x))) == sparse_map(es).insert(es[i].0, x),
    decreases es.len(),
{
    let k: U = es[i].0;
    let es2: Seq<(U, M)> = es.update(i, (k, x));
    if i == es.len() - 1 {
        assert(es2.drop_last() == es.drop_last());
        assert(sparse_map(es2) =~= sparse_map(es).insert(k, x));
    } else {
        assert(es2.drop_last() == es.drop_last().update(i, (k, x)));
        assert(es.drop_last()[i].0 == k);
        lemma_map_update(es.drop_last(), i, x);
        assert(es[es.len() - 1].0 != k);
        assert(sparse_map(es2) =~= sparse_map(es).insert(k, x));
    }
}

/// Removing an entry removes its id from the map.
pub proof fn lemma_map_remove<U, M>(es: Seq<(U, M)>, i: int)
    requires
        distinct_keys(es),
        0 <= i < es.len(),
    ensures
        sparse_map(es.remove(i)) == sparse_map(es).remove(es[i].0),
    decreases es.len(),
{
    let k: U = es[i].0;
    if i == es.len() - 1 {
        assert(es.remove(i) == es.drop_last());
        lemma_map_dom(es.drop_last(), k);
        if sparse_map(es.drop_last()).dom().contains(k) {
            let j: int = choose|j: int| 0 <= j < es.drop_last().len() && #[trigger] es.drop_last()[j].0 == k;
            assert(es[j].0 == k);
        }
        assert(sparse_map(es.remove(i)) =~= sparse_map(es).remove(k));
    } else {
        assert(es.remove(i).drop_last() == es.drop_last().remove(i));
        assert(es.remove(i).last() == es.last());
        assert(es.drop_last()[i].0 == k);
        lemma_map_remove(es.drop_last(), i);
        assert(es[es.len() - 1].0 != k);
        assert(sparse_map(es.remove(i)) =~= sparse_map(es).remove(k));
    }
}

/// Exclusive access to the metric of an entry.
fn entry_slot_mut<U, M>(es: &mut Vec<(U, M)>, i: usize) -> (r: &mut M)
    requires
        i < old(es)@.len(),
    ensures
        *r == old(es)@[i as int].1,
        final(es)@ == old(es)@.update(i as int, (old(es)@[i as int].0, *final(r))),
{
    let e: &mut (U, M) = &mut es[i];
    &mut e.1
}

/// Finds the position of the entry with the given id.
fn sparse_find<U: PartialEq, M>(es: &Vec<(U, M)>, u: &U) -> (r: Option<usize>)
    requires
        vstd::laws_eq::obeys_concrete_eq::<U>(),
    ensures
        match r {
            Some(i) => i < es@.len() && es@[i as int].0 == *u,
            None => forall|i: int| 0 <= i < es@.len() ==> #[trigger] es@[i].0 != *u,
        },
{
    let n: usize = es.len();
    let mut i: usize = 0;
    while i < n
        invariant
            n == es@.len(),
            i <= n,
            vstd::laws_eq::obeys_concrete_eq::<U>(),
            forall|j: int| 0 <= j < i ==> #[trigger] es@[j].0 != *u,
        decreases n - i,
    {
        let found: bool = es[i].0 == *u;
        proof {
            reveal(vstd::laws_eq::obeys_concrete_eq);
        }
        if found {
            return Some(i);
        }
        i = i + 1;
    }
    None
}

/// Exclusive access to the metric with the given id, inserting the initial state if there
/// is none.
pub fn sparse_entry_mut<U: PartialEq, M: MetricType>(es: &mut Vec<(U, M)>, u: U) -> (r: &mut M)
    requires
        vstd::laws_eq::obeys_concrete_eq::<U>(),
        distinct_keys(old(es)@),
    ensures
        *r == if sparse_map(old(es)@).dom().contains(u) {
            sparse_map(old(es)@)[u]
        } else {
            M::spec_initial()
        },
        distinct_keys(final(es)@),
        sparse_map(final(es)@) == sparse_map(old(es)@).insert(u, *final(r)),
        final(es)@.len() == old(es)@.len() + if sparse_map(old(es)@).dom().contains(u) {
            0nat
        } else {
            1nat
        },
        forall|i: int| 0 <= i < old(es)@.len() ==> #[trigger] final(es)@[i].0 == old(es)@[i].0,
        final(es)@.len() > old(es)@.len() ==> final(es)@[old(es)@.len() as int].0 == u,
{
    proof {
        lemma_map_dom(es@, u);
    }
    match sparse_find(es, &u) {
        Some(i) => {
            proof {
                lemma_map_at(es@, i as int);
            }
            let ghost before: Seq<(U, M)> = es@;
            let r: &mut M = entry_slot_mut(es, i);
            proof {
                assert forall|x: M| #![trigger before.update(i as int, (u, x))]
                    sparse_map(before.update(i as int, (u, x))) == sparse_map(before).insert(u, x)
                    && distinct_keys(before.update(i as int, (u, x))) by {
                    lemma_map_update(before, i as int, x);
                    assert forall|a: int, b: int| 0 <= a < b < before.len() implies
                        #[trigger] before.update(i as int, (u, x))[a].0 != #[trigger] before.update(i as int, (u, x))[b].0 by {
                        assert(before[a].0 != before[b].0);
                    }
                }
            }
            r
        },
        None => {
            let n: usize = es.len();
            es.push((u, M::initial()));
            proof {
                let pushed: Seq<(U, M)> = es@;
                assert(pushed.drop_last() == old(es)@);
                assert forall|a: int, b: int| 0 <= a < b < pushed.len() implies
                    #[trigger] pushed[a].0 != #[trigger] pushed[b].0 by {
                    if b == pushed.len() - 1 {
                        assert(old(es)@[a].0 != u);
                    } else {
                        assert(old(es)@[a].0 != old(es)@[b].0);
                    }
                }
            }
            let ghost before: Seq<(U, M)> = es@;
            let r: &mut M = entry_slot_mut(es, n);
            proof {
                assert forall|x: M| #![trigger before.update(n as int, (u, x))]
                    sparse_map(before.update(n as int, (u, x))) == sparse_map(old(es)@).insert(u, x)
                    && distinct_keys(before.update(n as int, (u, x))) by {
                    let w: Seq<(U, M)> = before.update(n as int, (u, x));
                    assert(w.drop_last() == old(es)@);
                    assert forall|a: int, b: int| 0 <= a < b < w.len() implies
                        #[trigger] w[a].0 != #[trigger] w[b].0 by {
                        assert(before[a].0 != before[b].0);
                    }
                }
            }
            r
        },
    }
}

/// Removes the entry with the given id, returning its metric.
pub fn sparse_remove<U: PartialEq, M>(es: &mut Vec<(U, M)>, u: U) -> (r: Option<M>)
    requires
        vstd::laws_eq::obeys_concrete_eq::<U>(),
        distinct_keys(old(es)@),
    ensures
        r == if sparse_map(old(es)@).dom().contains(u) {
            Some(sparse_map(old(es)@)[u])
        } else {
            None
        },
        distinct_keys(final(es)@),
        sparse_map(final(es)@) == sparse_map(old(es)@).remove(u),
        final(es)@.len() == old(es)@.len() - if r is Some {
            1int
        } else {
            0int
        },
        forall|i: int| 0 <= i < final(es)@.len() ==> exists|j: int| 0 <= j < old(es)@.len() && #[trigger] final(es)@[i].0 == old(es)@[j].0,
{
    proof {
        lemma_map_dom(es@, u);
    }
    match sparse_find(es, &u) {
        Some(i) => {
            proof {
                lemma_map_at(es@, i as int);
                lemma_map_remove(es@, i as int);
            }
            let ghost before: Seq<(U, M)> = es@;
            let (_, m) = es.remove(i);
            proof {
                assert forall|a: int, b: int| 0 <= a < b < es@.len() implies
                    #[trigger] es@[a].0 != #[trigger] es@[b].0 by {
                    let a2: int = if a < i { a } else { a + 1 };
                    let b2: int = if b < i { b } else { b + 1 };
                    assert(es@[a] == before[a2]);
                    assert(es@[b] == before[b2]);
                }
                assert forall|a: int| 0 <= a < es@.len() implies exists|j: int| 0 <= j < before.len() && #[trigger] es@[a].0 == before[j].0 by {
                    let a2: int = if a < i { a } else { a + 1 };
                    assert(es@[a] == before[a2]);
                }
            }
            Some(m)
        },
        None => {
            proof {
                assert(sparse_map(es@).remove(u) =~= sparse_map(es@));
                assert forall|a: int| 0 <= a < es@.len() implies exists|j: int| 0 <= j < es@.len() && #[trigger] es@[a].0 == es@[j].0 by {
                }
            }
            None
        },
    }
}

} // verus!
