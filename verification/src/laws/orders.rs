//! Laws of reordering.
use vstd::prelude::*;

use crate::dispatch_queue_state::EntryView;
use crate::laws::leases::distinct_ids;
use crate::mutations::{has_id, index_of_id, knows};
use crate::ordering::{
    after_reorder, first_free, indices, left_over, lemma_arranged_multiset, lemma_filter_indices,
    lemma_first_free, lemma_new_order, moved_at, moved_count, named, named_first, new_order,
};
use crate::seqs::lemma_first_where_is;

verus! {

/// A reordering neither loses nor invents entries.
pub proof fn law_reorder_keeps_all_entries(entries: Seq<EntryView>, ids: Seq<Seq<char>>)
    ensures
        after_reorder(entries, ids).to_multiset() == entries.to_multiset(),
        after_reorder(entries, ids).len() == entries.len(),
{
    lemma_new_order(entries, ids);
    lemma_arranged_multiset(entries, new_order(entries, ids));
}

/// Where ids are distinct, a reordering puts the named entries first and
/// leaves the ids distinct; one that moves no id moves nothing.
pub proof fn law_reorder_moves_by_id(entries: Seq<EntryView>, ids: Seq<Seq<char>>)
    requires
        distinct_ids(entries),
    ensures
        after_reorder(entries, ids) == named_first(entries, ids),
        distinct_ids(after_reorder(entries, ids)),
        (moved_count(entries, named_first(entries, ids)) == 0) == (after_reorder(entries, ids)
            == entries),
{
    let n = entries.len();
    let order = new_order(entries, ids);
    let after = named_first(entries, ids);
    let moved = moved_at(entries, after);
    lemma_new_order(entries, ids);
    lemma_filter_indices(n, n as int, moved);
    assert(indices(n).take(n as int) =~= indices(n));
    if moved_count(entries, after) == 0 {
        assert forall|k: int| 0 <= k < n implies #[trigger] after[k] == entries[k] by {
            if moved(k) {
                assert(indices(n).filter(moved).contains(k));
            }
            let i = order[k];
            assert(after[k] == entries[i]);
            if i < k {
                assert(entries[i].entry_id != entries[k].entry_id);
            } else if k < i {
                assert(entries[k].entry_id != entries[i].entry_id);
            }
        }
        assert(after =~= entries);
    } else {
        let kept = indices(n).filter(moved);
        assert(moved(kept[0]));
    }
    assert forall|j: int, k: int| 0 <= j < k < after.len() implies (
    #[trigger] after[j]).entry_id != (#[trigger] after[k]).entry_id by {
        assert(order[j] != order[k]);
        if order[j] < order[k] {
            assert(entries[order[j]].entry_id != entries[order[k]].entry_id);
        } else {
            assert(entries[order[k]].entry_id != entries[order[j]].entry_id);
        }
    }
}

proof fn lemma_named_in_turn(entries: Seq<EntryView>, ids: Seq<Seq<char>>, n: int)
    requires
        0 <= n <= ids.len(),
        ids.no_duplicates(),
        forall|k: int| 0 <= k < n ==> knows(entries, #[trigger] ids[k]),
    ensures
        named(entries, ids, n).len() == n,
        forall|k: int|
            0 <= k < n ==> #[trigger] named(entries, ids, n)[k] == index_of_id(entries, ids[k]),
    decreases n,
{
    if n > 0 {
        lemma_named_in_turn(entries, ids, n - 1);
        let taken = named(entries, ids, n - 1);
        let id = ids[n - 1];
        assert(knows(entries, id));
        lemma_first_where_is(entries, has_id(id));
        lemma_first_free(entries, taken, id);
        let i = index_of_id(entries, id);
        let free = first_free(entries, taken, id);
        assert(has_id(id)(entries[i]));
        if taken.contains(i) {
            let k = taken.index_of(i);
            assert(taken[k] == index_of_id(entries, ids[k]));
            lemma_first_where_is(entries, has_id(ids[k]));
            assert(knows(entries, ids[k]));
            assert(has_id(ids[k])(entries[i]));
            assert(ids[k] != ids[n - 1]);
        }
        if free > i {
            assert(entries[i].entry_id == id);
        }
        if free < i {
            assert(!has_id(id)(entries[free]));
        }
    }
}

/// Entries that are named each once come first, in the order of their names.
pub proof fn law_reorder_puts_named_entries_first(entries: Seq<EntryView>, ids: Seq<Seq<char>>)
    requires
        distinct_ids(entries),
        ids.no_duplicates(),
        forall|k: int| 0 <= k < ids.len() ==> knows(entries, #[trigger] ids[k]),
    ensures
        ids.len() <= entries.len(),
        forall|k: int|
            0 <= k < ids.len() ==> (#[trigger] after_reorder(entries, ids)[k]).entry_id == ids[k],
{
    let n = ids.len() as int;
    law_reorder_moves_by_id(entries, ids);
    lemma_new_order(entries, ids);
    lemma_named_in_turn(entries, ids, n);
    assert forall|k: int| 0 <= k < n implies (#[trigger] after_reorder(
        entries,
        ids,
    )[k]).entry_id == ids[k] by {
        assert(new_order(entries, ids)[k] == named(entries, ids, n)[k]);
        assert(knows(entries, ids[k]));
        lemma_first_where_is(entries, has_id(ids[k]));
    }
}

proof fn lemma_named_have_names(entries: Seq<EntryView>, ids: Seq<Seq<char>>, n: int)
    requires
        n <= ids.len(),
    ensures
        forall|k: int|
            0 <= k < named(entries, ids, n).len() ==> ids.contains(
                entries[#[trigger] named(entries, ids, n)[k]].entry_id,
            ),
    decreases n,
{
    if n > 0 {
        lemma_named_have_names(entries, ids, n - 1);
        let taken = named(entries, ids, n - 1);
        lemma_first_free(entries, taken, ids[n - 1]);
        assert(ids.contains(ids[n - 1]));
    }
}

/// Entries that are not named keep their order among themselves.
pub proof fn law_reorder_keeps_the_others_in_order(
    entries: Seq<EntryView>,
    ids: Seq<Seq<char>>,
    i: int,
    j: int,
)
    requires
        0 <= i < j < entries.len(),
        !ids.contains(entries[i].entry_id),
        !ids.contains(entries[j].entry_id),
    ensures
        exists|a: int, b: int|
            0 <= a < b < entries.len() && #[trigger] after_reorder(entries, ids)[a] == entries[i]
                && #[trigger] after_reorder(entries, ids)[b] == entries[j],
{
    let n = entries.len();
    let after = after_reorder(entries, ids);
    lemma_new_order(entries, ids);
    if after == entries {
        assert(after[i] == entries[i] && after[j] == entries[j]);
    } else {
        let order = new_order(entries, ids);
        let taken = named(entries, ids, ids.len() as int);
        let rest = indices(n).filter(left_over(taken));
        lemma_named_have_names(entries, ids, ids.len() as int);
        lemma_filter_indices(n, n as int, left_over(taken));
        assert(indices(n).take(n as int) =~= indices(n));
        if taken.contains(i) {
            assert(ids.contains(entries[taken[taken.index_of(i)]].entry_id));
        }
        if taken.contains(j) {
            assert(ids.contains(entries[taken[taken.index_of(j)]].entry_id));
        }
        assert(left_over(taken)(i) && left_over(taken)(j));
        let a = rest.index_of(i);
        let b = rest.index_of(j);
        assert(rest.contains(i) && rest.contains(j));
        assert(rest[a] == i && rest[b] == j);
        if b <= a {
            assert(rest[b] <= rest[a]);
        }
        assert(order[taken.len() + a] == i);
        assert(order[taken.len() + b] == j);
        assert(after[taken.len() + a] == entries[i]);
        assert(after[taken.len() + b] == entries[j]);
    }
}

proof fn lemma_every_name_takes_its_entry(
    entries: Seq<EntryView>,
    ids: Seq<Seq<char>>,
    n: int,
    k: int,
    i: int,
)
    requires
        distinct_ids(entries),
        0 <= k < n <= ids.len(),
        0 <= i < entries.len(),
        entries[i].entry_id == ids[k],
    ensures
        named(entries, ids, n).contains(i),
    decreases n,
{
    let taken = named(entries, ids, n - 1);
    let all = named(entries, ids, n);
    if k < n - 1 {
        lemma_every_name_takes_its_entry(entries, ids, n - 1, k, i);
        let at = taken.index_of(i);
        assert(all[at] == i);
    } else {
        lemma_first_free(entries, taken, ids[k]);
        let free = first_free(entries, taken, ids[k]);
        if taken.contains(i) {
            let at = taken.index_of(i);
            assert(all[at] == i);
        } else {
            assert(entries[i].entry_id == ids[k]);
            assert(free <= i);
            if free < i {
                assert(entries[free].entry_id != entries[i].entry_id);
            }
            assert(all[taken.len() as int] == i);
        }
    }
}

/// Entries that are not named come behind those that are.
pub proof fn law_reorder_puts_the_others_behind(
    entries: Seq<EntryView>,
    ids: Seq<Seq<char>>,
    i: int,
    j: int,
)
    requires
        distinct_ids(entries),
        0 <= i < entries.len(),
        0 <= j < entries.len(),
        ids.contains(entries[i].entry_id),
        !ids.contains(entries[j].entry_id),
    ensures
        exists|a: int, b: int|
            0 <= a < b < entries.len() && #[trigger] after_reorder(entries, ids)[a] == entries[i]
                && #[trigger] after_reorder(entries, ids)[b] == entries[j],
{
    let n = entries.len();
    let after = after_reorder(entries, ids);
    law_reorder_moves_by_id(entries, ids);
    lemma_new_order(entries, ids);
    let order = new_order(entries, ids);
    let taken = named(entries, ids, ids.len() as int);
    let rest = indices(n).filter(left_over(taken));
    lemma_every_name_takes_its_entry(
        entries,
        ids,
        ids.len() as int,
        ids.index_of(entries[i].entry_id),
        i,
    );
    lemma_named_have_names(entries, ids, ids.len() as int);
    if taken.contains(j) {
        assert(ids.contains(entries[taken[taken.index_of(j)]].entry_id));
    }
    lemma_filter_indices(n, n as int, left_over(taken));
    assert(indices(n).take(n as int) =~= indices(n));
    assert(left_over(taken)(j));
    assert(rest.contains(j));
    let a = taken.index_of(i);
    let b = taken.len() + rest.index_of(j);
    assert(order[a] == i && order[b] == j);
    assert(after[a] == entries[i] && after[b] == entries[j]);
}

} // verus!
