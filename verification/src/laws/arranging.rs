//! Where a reordering puts each entry.
use vstd::prelude::*;

use crate::dispatch_queue_state::EntryView;
use crate::ordering::{
    after_reorder, first_free, indices, left_over, lemma_filter_indices, lemma_first_free,
    lemma_named, lemma_new_order, moved_at, moved_count, named, named_first, new_order,
};
use crate::seqs::lemma_filter_at;

verus! {

/// The places in `ids` of the names that took an entry, among the first `n`.
proof fn lemma_names_that_took(entries: Seq<EntryView>, ids: Seq<Seq<char>>, n: int) -> (names: Seq<
    int,
>)
    requires
        0 <= n <= ids.len(),
    ensures
        ({
            let taken = named(entries, ids, n);
            &&& names.len() == taken.len()
            &&& forall|j: int, k: int| 0 <= j < k < names.len() ==> names[j] < names[k]
            &&& forall|k: int|
                0 <= k < names.len() ==> {
                    &&& 0 <= #[trigger] names[k] < n
                    &&& entries[taken[k]].entry_id == ids[names[k]]
                    &&& forall|i: int|
                        0 <= i < taken[k] && (#[trigger] entries[i]).entry_id == ids[names[k]]
                            ==> taken.take(k).contains(i)
                }
            &&& forall|m: int|
                0 <= m < n && !(#[trigger] names.contains(m)) ==> forall|i: int|
                    0 <= i < entries.len() && (#[trigger] entries[i]).entry_id == ids[m]
                        ==> exists|h: int|
                        0 <= h < names.len() && names[h] < m && #[trigger] taken[h] == i
        }),
    decreases n,
{
    if n == 0 {
        Seq::empty()
    } else {
        let fewer = lemma_names_that_took(entries, ids, n - 1);
        let before = named(entries, ids, n - 1);
        let taken = named(entries, ids, n);
        lemma_named(entries, ids, n - 1);
        let id = ids[n - 1];
        let at = first_free(entries, before, id);
        lemma_first_free(entries, before, id);
        let names = if at < entries.len() {
            fewer.push(n - 1)
        } else {
            fewer
        };
        assert forall|k: int| 0 <= k < names.len() implies {
            &&& 0 <= #[trigger] names[k] < n
            &&& entries[taken[k]].entry_id == ids[names[k]]
            &&& forall|i: int|
                0 <= i < taken[k] && (#[trigger] entries[i]).entry_id == ids[names[k]]
                    ==> taken.take(k).contains(i)
        } by {
            if k < fewer.len() {
                assert(names[k] == fewer[k]);
                assert(taken[k] == before[k]);
                assert(taken.take(k) =~= before.take(k));
            } else {
                assert(taken.take(k) =~= before);
            }
        }
        assert forall|m: int| 0 <= m < n && !(#[trigger] names.contains(m)) implies forall|i: int|
            0 <= i < entries.len() && (#[trigger] entries[i]).entry_id == ids[m] ==> exists|h: int|
                0 <= h < names.len() && names[h] < m && #[trigger] taken[h] == i by {
            assert forall|i: int|
                0 <= i < entries.len() && (#[trigger] entries[i]).entry_id
                    == ids[m] implies exists|h: int|
                0 <= h < names.len() && names[h] < m && #[trigger] taken[h] == i by {
                if m < n - 1 {
                    if fewer.contains(m) {
                        let k = fewer.index_of(m);
                        assert(names[k] == m);
                    }
                    assert(!fewer.contains(m));
                    let h = choose|h: int|
                        0 <= h < fewer.len() && fewer[h] < m && #[trigger] before[h] == i;
                    assert(names[h] == fewer[h] && taken[h] == i);
                } else {
                    if at < entries.len() {
                        assert(names[fewer.len() as int] == m);
                    }
                    assert(before.contains(i));
                    let h = before.index_of(i);
                    assert(taken[h] == i);
                    assert(names[h] < n - 1);
                }
            }
        }
        names
    }
}

/// A reordering puts the named entries first, in the order of the names. Each
/// name takes the first entry with its id that no earlier name took; it takes
/// none only where earlier names took every entry with its id. The others
/// follow in the order that they had. No entry is lost or doubled.
///
/// The result is the index from which each place is filled, and the places in
/// `ids` of the names that took an entry.
pub proof fn law_a_reordering_puts_the_named_first(
    entries: Seq<EntryView>,
    ids: Seq<Seq<char>>,
) -> (moves: (Seq<int>, Seq<int>))
    ensures
        moves.0.len() == entries.len(),
        named_first(entries, ids).len() == entries.len(),
        forall|k: int|
            0 <= k < entries.len() ==> 0 <= #[trigger] moves.0[k] < entries.len() && named_first(
                entries,
                ids,
            )[k] == entries[moves.0[k]],
        forall|j: int, k: int|
            0 <= j < entries.len() && 0 <= k < entries.len() && j != k ==> moves.0[j] != moves.0[k],
        moves.1.len() <= entries.len(),
        forall|j: int, k: int| 0 <= j < k < moves.1.len() ==> moves.1[j] < moves.1[k],
        forall|k: int|
            0 <= k < moves.1.len() ==> {
                &&& 0 <= #[trigger] moves.1[k] < ids.len()
                &&& entries[moves.0[k]].entry_id == ids[moves.1[k]]
                &&& forall|i: int|
                    0 <= i < moves.0[k] && (#[trigger] entries[i]).entry_id == ids[moves.1[k]]
                        ==> moves.0.take(k).contains(i)
            },
        forall|m: int, i: int|
            0 <= m < ids.len() && !(#[trigger] moves.1.contains(m)) && 0 <= i < entries.len() && (
            #[trigger] entries[i]).entry_id == ids[m] ==> exists|h: int|
                0 <= h < moves.1.len() && moves.1[h] < m && #[trigger] moves.0[h] == i,
        forall|j: int, k: int| moves.1.len() <= j < k < entries.len() ==> moves.0[j] < moves.0[k],
{
    let n = entries.len();
    let taken = named(entries, ids, ids.len() as int);
    let order = new_order(entries, ids);
    let names = lemma_names_that_took(entries, ids, ids.len() as int);
    lemma_new_order(entries, ids);
    lemma_filter_indices(n, n as int, left_over(taken));
    assert(indices(n).take(n as int) =~= indices(n));
    let moves = (order, names);
    assert forall|k: int| 0 <= k < names.len() implies {
        &&& 0 <= #[trigger] names[k] < ids.len()
        &&& entries[order[k]].entry_id == ids[names[k]]
        &&& forall|i: int|
            0 <= i < order[k] && (#[trigger] entries[i]).entry_id == ids[names[k]]
                ==> order.take(k).contains(i)
    } by {
        assert(order[k] == taken[k]);
        assert(order.take(k) =~= taken.take(k));
    }
    assert forall|m: int, i: int|
        0 <= m < ids.len() && !(#[trigger] names.contains(m)) && 0 <= i < entries.len() && (
        #[trigger] entries[i]).entry_id == ids[m] implies exists|h: int|
        0 <= h < names.len() && names[h] < m && #[trigger] order[h] == i by {
        let h = choose|h: int| 0 <= h < names.len() && names[h] < m && #[trigger] taken[h] == i;
        assert(order[h] == i);
    }
    assert(moves.0 == order && moves.1 == names);
    assert forall|m: int, i: int|
        0 <= m < ids.len() && !(#[trigger] moves.1.contains(m)) && 0 <= i < entries.len() && (
        #[trigger] entries[i]).entry_id == ids[m] implies exists|h: int|
        0 <= h < moves.1.len() && moves.1[h] < m && #[trigger] moves.0[h] == i by {
        let h = choose|h: int| 0 <= h < names.len() && names[h] < m && #[trigger] order[h] == i;
        assert(moves.0[h] == i);
    }
    moves
}

/// A reordering counts the positions whose id changes. Where there is none, the
/// queue stays exactly as it was.
///
/// The result names those positions.
pub proof fn law_a_reordering_counts_what_moved(
    entries: Seq<EntryView>,
    ids: Seq<Seq<char>>,
) -> (moved: Seq<int>)
    ensures
        ({
            let after = named_first(entries, ids);
            &&& moved.len() == moved_count(entries, after)
            &&& forall|j: int, k: int| 0 <= j < k < moved.len() ==> moved[j] < moved[k]
            &&& forall|k: int| 0 <= k < moved.len() ==> 0 <= #[trigger] moved[k] < entries.len()
            &&& forall|i: int|
                0 <= i < entries.len() ==> (#[trigger] moved.contains(i) <==> entries[i].entry_id
                    != after[i].entry_id)
            &&& moved.len() == 0 ==> after_reorder(entries, ids) == entries
            &&& moved.len() > 0 ==> after_reorder(entries, ids) == after
        }),
{
    let all = indices(entries.len());
    let p = moved_at(entries, named_first(entries, ids));
    let moved = lemma_filter_at(all, p);
    assert forall|i: int| 0 <= i < entries.len() implies (#[trigger] moved.contains(i) <==> p(
        i,
    )) by {
        assert(all[i] == i);
    }
    moved
}

} // verus!
