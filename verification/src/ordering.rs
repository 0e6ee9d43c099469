//! Reordering the queue by entry ids.
use vstd::prelude::*;

use crate::dispatch_queue_state::{DispatchQueueEntry, DispatchQueueState};
#[allow(unused_imports)]
use crate::dispatch_queue_state::EntryView;
use crate::leasing::Step;
#[allow(unused_imports)]
use crate::leasing::index_ints;
use crate::queue_protocol::QueueReorderResponse;
#[allow(unused_imports)]
use crate::seqs::{first_where, lemma_filter_take, lemma_first_where, lemma_first_where_is};
use crate::text::same_text;
#[allow(unused_imports)]
use crate::text::texts;

verus! {

/// The indices below `n`, in order.
pub open spec fn indices(n: nat) -> Seq<int> {
    Seq::new(n, |i: int| i)
}

/// Whether the entry at an index has the id `id` and is not among `taken`.
pub open spec fn is_free(
    entries: Seq<EntryView>,
    taken: Seq<int>,
    id: Seq<char>,
) -> spec_fn(int) -> bool {
    |i: int| entries[i].entry_id == id && !taken.contains(i)
}

/// The index of the first entry with the id `id` that is not among `taken`;
/// the length of the queue where there is none.
pub open spec fn first_free(entries: Seq<EntryView>, taken: Seq<int>, id: Seq<char>) -> int {
    first_where(indices(entries.len()), is_free(entries, taken, id))
}

/// The indices of the entries that the first `n` of `ids` name, in that
/// order. Each name takes one entry, the first with its id that no earlier
/// name took; a name without such an entry takes none.
pub open spec fn named(entries: Seq<EntryView>, ids: Seq<Seq<char>>, n: int) -> Seq<int>
    decreases n,
{
    if n <= 0 {
        Seq::empty()
    } else {
        let taken = named(entries, ids, n - 1);
        let i = first_free(entries, taken, ids[n - 1]);
        if i < entries.len() {
            taken.push(i)
        } else {
            taken
        }
    }
}

/// Whether an index is not among `taken`.
pub open spec fn left_over(taken: Seq<int>) -> spec_fn(int) -> bool {
    |i: int| !taken.contains(i)
}

/// The new order of the indices: the named entries first, then the others in
/// the order that they had.
pub open spec fn new_order(entries: Seq<EntryView>, ids: Seq<Seq<char>>) -> Seq<int> {
    let taken = named(entries, ids, ids.len() as int);
    taken + indices(entries.len()).filter(left_over(taken))
}

/// The entries at the indices of `order`.
pub open spec fn arranged(entries: Seq<EntryView>, order: Seq<int>) -> Seq<EntryView> {
    order.map_values(|i: int| entries[i])
}

/// The queue with the entries that `ids` names moved to the front.
pub open spec fn named_first(entries: Seq<EntryView>, ids: Seq<Seq<char>>) -> Seq<EntryView> {
    arranged(entries, new_order(entries, ids))
}

/// Whether position `i` holds another id in `after` than in `before`.
pub open spec fn moved_at(
    before: Seq<EntryView>,
    after: Seq<EntryView>,
) -> spec_fn(int) -> bool {
    |i: int| before[i].entry_id != after[i].entry_id
}

/// How many positions hold another id in `after` than in `before`.
pub open spec fn moved_count(before: Seq<EntryView>, after: Seq<EntryView>) -> nat {
    indices(before.len()).filter(moved_at(before, after)).len()
}

/// The queue after a reordering. One that moves no id changes nothing.
pub open spec fn after_reorder(entries: Seq<EntryView>, ids: Seq<Seq<char>>) -> Seq<EntryView> {
    if moved_count(entries, named_first(entries, ids)) == 0 {
        entries
    } else {
        named_first(entries, ids)
    }
}

/// Whether `order` lists each index below `n` once.
pub open spec fn is_arrangement(order: Seq<int>, n: nat) -> bool {
    &&& order.no_duplicates()
    &&& forall|k: int| 0 <= k < order.len() ==> 0 <= #[trigger] order[k] < n
    &&& forall|i: int| 0 <= i < n ==> order.contains(i)
}

/// A name takes an index of the queue that has its id and was not taken.
pub proof fn lemma_first_free(entries: Seq<EntryView>, taken: Seq<int>, id: Seq<char>)
    ensures
        0 <= first_free(entries, taken, id) <= entries.len(),
        first_free(entries, taken, id) < entries.len() ==> {
            &&& entries[first_free(entries, taken, id)].entry_id == id
            &&& !taken.contains(first_free(entries, taken, id))
        },
        forall|j: int|
            0 <= j < first_free(entries, taken, id) && (#[trigger] entries[j]).entry_id == id
                ==> taken.contains(j),
{
    let all = indices(entries.len());
    let p = is_free(entries, taken, id);
    lemma_first_where_is(all, p);
    let i = first_where(all, p);
    if i < entries.len() {
        assert(all[i] == i);
        assert(p(all[i]));
    }
    assert forall|j: int| 0 <= j < i && (#[trigger] entries[j]).entry_id
        == id implies taken.contains(j) by {
        assert(all[j] == j);
        assert(!p(all[j]));
    }
}

/// Named indices are distinct indices of the queue.
pub proof fn lemma_named(entries: Seq<EntryView>, ids: Seq<Seq<char>>, n: int)
    ensures
        named(entries, ids, n).no_duplicates(),
        n >= 0 ==> named(entries, ids, n).len() <= n,
        forall|k: int|
            0 <= k < named(entries, ids, n).len() ==> 0 <= #[trigger] named(entries, ids, n)[k]
                < entries.len(),
    decreases n,
{
    if n > 0 {
        lemma_named(entries, ids, n - 1);
        lemma_first_free(entries, named(entries, ids, n - 1), ids[n - 1]);
    }
}

/// The indices that a filter keeps stay distinct and in ascending order.
pub proof fn lemma_filter_indices(n: nat, m: int, p: spec_fn(int) -> bool)
    requires
        0 <= m <= n,
    ensures
        ({
            let kept = indices(n).take(m).filter(p);
            &&& forall|k: int| 0 <= k < kept.len() ==> 0 <= #[trigger] kept[k] < m && p(kept[k])
            &&& forall|j: int, k: int| 0 <= j < k < kept.len() ==> kept[j] < kept[k]
            &&& forall|i: int| 0 <= i < m && #[trigger] p(i) ==> kept.contains(i)
        }),
    decreases m,
{
    reveal(Seq::filter);
    let all = indices(n);
    if m > 0 {
        lemma_filter_indices(n, m - 1, p);
        lemma_filter_take(all, p, m - 1);
        let fewer = all.take(m - 1).filter(p);
        let kept = all.take(m).filter(p);
        assert(all[m - 1] == m - 1);
        assert forall|i: int| 0 <= i < m && #[trigger] p(i) implies kept.contains(i) by {
            if i == m - 1 {
                assert(kept[kept.len() - 1] == i);
            } else {
                let k = choose|k: int| 0 <= k < fewer.len() && fewer[k] == i;
                assert(kept[k] == i);
            }
        }
    }
}

/// The new order lists each index once.
pub proof fn lemma_new_order(entries: Seq<EntryView>, ids: Seq<Seq<char>>)
    ensures
        is_arrangement(new_order(entries, ids), entries.len()),
        new_order(entries, ids).len() == entries.len(),
{
    let n = entries.len();
    let taken = named(entries, ids, ids.len() as int);
    let rest = indices(n).filter(left_over(taken));
    let order = new_order(entries, ids);
    lemma_named(entries, ids, ids.len() as int);
    lemma_filter_indices(n, n as int, left_over(taken));
    assert(indices(n).take(n as int) =~= indices(n));
    assert forall|i: int| 0 <= i < n implies order.contains(i) by {
        if taken.contains(i) {
            let k = choose|k: int| 0 <= k < taken.len() && taken[k] == i;
            assert(order[k] == i);
        } else {
            assert(left_over(taken)(i));
            let k = choose|k: int| 0 <= k < rest.len() && rest[k] == i;
            assert(order[taken.len() + k] == i);
        }
    }
    assert forall|j: int, k: int|
        0 <= j < order.len() && 0 <= k < order.len() && j != k implies order[j] != order[k] by {
        if j < taken.len() && k >= taken.len() {
            assert(left_over(taken)(rest[k - taken.len()]));
            assert(taken.contains(taken[j]));
        } else if k < taken.len() && j >= taken.len() {
            assert(left_over(taken)(rest[j - taken.len()]));
            assert(taken.contains(taken[k]));
        }
    }
    lemma_arrangement_len(order, n);
}

/// An arrangement of the indices below `n` has `n` members.
pub proof fn lemma_arrangement_len(order: Seq<int>, n: nat)
    requires
        is_arrangement(order, n),
    ensures
        order.len() == n,
    decreases n,
{
    if n == 0 {
        if order.len() > 0 {
            assert(order[0] < n);
        }
    } else {
        lemma_arrangement_shrinks(order, n);
        let k = order.index_of(n - 1);
        lemma_arrangement_len(order.remove(k), (n - 1) as nat);
    }
}

proof fn lemma_arrangement_shrinks(order: Seq<int>, n: nat)
    requires
        is_arrangement(order, n),
        n > 0,
    ensures
        ({
            let k = order.index_of(n - 1);
            &&& 0 <= k < order.len()
            &&& order[k] == n - 1
            &&& is_arrangement(order.remove(k), (n - 1) as nat)
        }),
{
    assert(order.contains(n - 1));
    let k = order.index_of(n - 1);
    let less = order.remove(k);
    assert forall|j: int| 0 <= j < less.len() implies 0 <= #[trigger] less[j] < n - 1 by {
        let from = if j < k {
            j
        } else {
            j + 1
        };
        assert(less[j] == order[from]);
        assert(order[from] != order[k]);
    }
    assert forall|i: int| 0 <= i < n - 1 implies less.contains(i) by {
        assert(order.contains(i));
        let at = order.index_of(i);
        if at < k {
            assert(less[at] == i);
        } else {
            assert(less[at - 1] == i);
        }
    }
}

/// An arrangement moves entries around; it neither loses nor invents any.
pub proof fn lemma_arranged_multiset(entries: Seq<EntryView>, order: Seq<int>)
    requires
        is_arrangement(order, entries.len()),
    ensures
        arranged(entries, order).to_multiset() == entries.to_multiset(),
    decreases entries.len(),
{
    broadcast use vstd::seq_lib::group_to_multiset_ensures;

    let n = entries.len();
    lemma_arrangement_len(order, n);
    if n == 0 {
        assert(arranged(entries, order) =~= entries);
    } else {
        lemma_arrangement_shrinks(order, n);
        let k = order.index_of(n - 1);
        let fewer = entries.drop_last();
        let after = arranged(entries, order);
        lemma_arranged_multiset(fewer, order.remove(k));
        assert(arranged(fewer, order.remove(k)) =~= after.remove(k)) by {
            assert forall|j: int| 0 <= j < n - 1 implies arranged(fewer, order.remove(k))[j]
                == after.remove(k)[j] by {
                assert(0 <= order.remove(k)[j] < n - 1);
            }
        }
        assert(after[k] == entries[n - 1]);
        assert(entries.drop_last() =~= entries.remove(n - 1));
        let x = entries[n - 1];
        let before = entries.to_multiset();
        assert(after.to_multiset().remove(x) == before.remove(x));
        assert(after.contains(x)) by {
            assert(after[k] == x);
        }
        assert(entries.contains(x));
        assert(before.remove(x).insert(x) =~= before);
        assert(after.to_multiset().remove(x).insert(x) =~= after.to_multiset());
    }
}

/// The index of the first entry with the id `id` that is not yet consumed, or
/// the length of the queue.
fn next_free(
    state: &DispatchQueueState,
    consumed: &Vec<bool>,
    id: &str,
    Ghost(taken): Ghost<Seq<int>>,
) -> (index: usize)
    requires
        consumed@.len() == state@.len(),
        forall|i: int| 0 <= i < state@.len() ==> #[trigger] consumed@[i] == taken.contains(i),
    ensures
        index <= state@.len(),
        index == first_free(state@, taken, id@),
{
    let ghost s = state@;
    let ghost all = indices(s.len());
    let ghost p = is_free(s, taken, id@);
    let mut i: usize = 0;
    while i < state.entries.len()
        invariant
            s == state@,
            all == indices(s.len()),
            p == is_free(s, taken, id@),
            consumed@.len() == s.len(),
            forall|i: int| 0 <= i < s.len() ==> #[trigger] consumed@[i] == taken.contains(i),
            i <= state.entries.len(),
            forall|j: int| 0 <= j < i ==> !p(#[trigger] all[j]),
        decreases state.entries.len() - i,
    {
        assert(s[i as int] == state.entries@[i as int]@);
        assert(all[i as int] == i);
        if !consumed[i] && same_text(state.entries[i].entry_id.as_str(), id) {
            proof {
                lemma_first_where(all, p, i as int);
            }
            return i;
        }
        i += 1;
    }
    proof {
        lemma_first_where(all, p, i as int);
    }
    i
}

/// The new order of the indices.
pub fn arrange(state: &DispatchQueueState, entry_ids: &[String]) -> (order: Vec<usize>)
    ensures
        index_ints(order@) == new_order(state@, texts(entry_ids@)),
{
    let ghost s = state@;
    let ghost ids = texts(entry_ids@);
    let mut order: Vec<usize> = Vec::new();
    let mut consumed: Vec<bool> = Vec::new();
    let mut i: usize = 0;
    while i < state.entries.len()
        invariant
            i <= state.entries.len(),
            consumed@.len() == i,
            forall|j: int| 0 <= j < i ==> !(#[trigger] consumed@[j]),
        decreases state.entries.len() - i,
    {
        consumed.push(false);
        i += 1;
    }
    let mut n: usize = 0;
    assert(index_ints(order@) =~= named(s, ids, 0));
    while n < entry_ids.len()
        invariant
            s == state@,
            ids == texts(entry_ids@),
            n <= entry_ids.len(),
            consumed@.len() == s.len(),
            index_ints(order@) == named(s, ids, n as int),
            forall|i: int|
                0 <= i < s.len() ==> #[trigger] consumed@[i] == named(s, ids, n as int).contains(i),
        decreases entry_ids.len() - n,
    {
        let ghost taken = named(s, ids, n as int);
        let free = next_free(state, &consumed, entry_ids[n].as_str(), Ghost(taken));
        assert(ids[n as int] == entry_ids@[n as int]@);
        if free < state.entries.len() {
            order.push(free);
            consumed.set(free, true);
            proof {
                let more = taken.push(free as int);
                assert(index_ints(order@) =~= more);
                assert forall|i: int| 0 <= i < s.len() implies #[trigger] consumed@[i]
                    == more.contains(i) by {
                    if i == free {
                        assert(more[taken.len() as int] == i);
                    } else if taken.contains(i) {
                        let k = taken.index_of(i);
                        assert(more[k] == i);
                    } else if more.contains(i) {
                        let k = more.index_of(i);
                        assert(taken[k] == i);
                    }
                }
            }
        }
        n += 1;
    }
    let ghost taken = named(s, ids, ids.len() as int);
    let ghost all = indices(s.len());
    let ghost p = left_over(taken);
    let mut i: usize = 0;
    assert(index_ints(order@) =~= taken + all.take(0).filter(p)) by {
        reveal(Seq::filter);
    }
    while i < state.entries.len()
        invariant
            s == state@,
            all == indices(s.len()),
            p == left_over(taken),
            i <= state.entries.len(),
            consumed@.len() == s.len(),
            forall|i: int| 0 <= i < s.len() ==> #[trigger] consumed@[i] == taken.contains(i),
            index_ints(order@) == taken + all.take(i as int).filter(p),
        decreases state.entries.len() - i,
    {
        let ghost before = order@;
        proof {
            lemma_filter_take(all, p, i as int);
            assert(all[i as int] == i);
        }
        if !consumed[i] {
            order.push(i);
            assert(index_ints(order@) =~= index_ints(before).push(i as int));
            assert(index_ints(order@) =~= taken + all.take(i + 1).filter(p));
        }
        i += 1;
    }
    assert(all.take(i as int) =~= all);
    order
}

/// Moves the entries that `entry_ids` names to the front, in that order. The
/// others stay behind them in the order that they had.
pub fn reorder_entries(state: &mut DispatchQueueState, entry_ids: &[String]) -> (step: Step<
    QueueReorderResponse,
>)
    ensures
        final(state)@ == after_reorder(old(state)@, texts(entry_ids@)),
        step.reply.reordered_count == moved_count(
            old(state)@,
            named_first(old(state)@, texts(entry_ids@)),
        ),
        step.persist == (step.reply.reordered_count > 0),
{
    let ghost s = state@;
    let ghost after = named_first(s, texts(entry_ids@));
    let order = arrange(state, entry_ids);
    proof {
        lemma_new_order(s, texts(entry_ids@));
        assert(index_ints(order@).len() == order@.len());
    }
    let mut entries: Vec<DispatchQueueEntry> = Vec::new();
    let mut count: usize = 0;
    let mut k: usize = 0;
    let ghost all = indices(s.len());
    let ghost p = moved_at(s, after);
    assert(all.take(0).filter(p).len() == 0) by {
        reveal(Seq::filter);
    }
    while k < order.len()
        invariant
            s == state@,
            after == arranged(s, index_ints(order@)),
            is_arrangement(index_ints(order@), s.len()),
            order@.len() == s.len(),
            all == indices(s.len()),
            p == moved_at(s, after),
            k <= order.len(),
            entries@.len() == k,
            forall|j: int| 0 <= j < k ==> (#[trigger] entries@[j])@ == after[j],
            count == all.take(k as int).filter(p).len(),
            count <= k,
        decreases order.len() - k,
    {
        let i = order[k];
        proof {
            assert(index_ints(order@)[k as int] == i);
            assert(after[k as int] == s[i as int]);
            assert(s[i as int] == state.entries@[i as int]@);
            assert(s[k as int] == state.entries@[k as int]@);
            assert(all[k as int] == k);
            lemma_filter_take(all, p, k as int);
        }
        let entry = state.entries[i].clone();
        if !same_text(state.entries[k].entry_id.as_str(), entry.entry_id.as_str()) {
            count += 1;
        }
        entries.push(entry);
        k += 1;
    }
    assert(all.take(k as int) =~= all);
    if count == 0 {
        return Step { reply: QueueReorderResponse { reordered_count: 0 }, persist: false };
    }
    state.entries = entries;
    assert(state@ =~= after);
    Step { reply: QueueReorderResponse { reordered_count: count }, persist: true }
}

} // verus!
