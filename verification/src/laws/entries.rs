//! Laws of changes to single entries.
use vstd::prelude::*;

use crate::clock::UtcInstant;
use crate::dispatch_queue_state::{DispatchQueueEntryStatus, EntryView};
use crate::laws::leases::{
    distinct_ids, law_filter_keeps_ids_distinct, law_lease_changes_only_what_it_leases,
    law_lease_keeps_ids_distinct,
};
use crate::leasing::{
    after_lease, assigned, is_leasable, lease_reply, lemma_picks_ascend, lemma_picks_leasable,
    picked, swept,
};
use crate::mutations::{
    after_completion, after_mutation, has_id, index_of_id, is_refused, knows, leads_to, mutated,
    other_than, release_row, starts_from, takes_place, unassigned, uncompleted, without,
    MutationView,
};
use crate::queue_service::released_at;
use crate::seqs::{
    lemma_filter_all, lemma_filter_from, lemma_filter_within, lemma_first_where,
    lemma_first_where_is,
};

verus! {

/// Changing an entry without its id does not move the id.
proof fn lemma_index_after_update(entries: Seq<EntryView>, id: Seq<char>, entry: EntryView)
    requires
        knows(entries, id),
        entry.entry_id == id,
    ensures
        0 <= index_of_id(entries, id) < entries.len(),
        index_of_id(entries.update(index_of_id(entries, id), entry), id) == index_of_id(
            entries,
            id,
        ),
        entries[index_of_id(entries, id)].entry_id == id,
{
    lemma_first_where_is(entries, has_id(id));
    let i = index_of_id(entries, id);
    let after = entries.update(i, entry);
    assert forall|j: int| 0 <= j < i implies !has_id(id)(#[trigger] after[j]) by {
        assert(!has_id(id)(entries[j]));
    }
    lemma_first_where(after, has_id(id), i);
}

/// A change by entry id touches that entry alone, and neither moves nor
/// renames it.
pub proof fn law_mutation_touches_one_entry(
    entries: Seq<EntryView>,
    id: Seq<char>,
    mutation: MutationView,
)
    ensures
        ({
            let after = after_mutation(entries, id, mutation);
            &&& after.len() == entries.len()
            &&& forall|i: int|
                0 <= i < entries.len() ==> (#[trigger] after[i]).entry_id == entries[i].entry_id
            &&& forall|i: int|
                0 <= i < entries.len() && i != index_of_id(entries, id) ==> #[trigger] after[i]
                    == entries[i]
            &&& distinct_ids(entries) ==> distinct_ids(after)
        }),
{
    lemma_first_where_is(entries, has_id(id));
    let after = after_mutation(entries, id, mutation);
    assert forall|i: int| 0 <= i < entries.len() implies (#[trigger] after[i]).entry_id
        == entries[i].entry_id by {}
    if distinct_ids(entries) {
        assert forall|i: int, j: int| 0 <= i < j < after.len() implies (
        #[trigger] after[i]).entry_id != (#[trigger] after[j]).entry_id by {
            assert(entries[i].entry_id != entries[j].entry_id);
        }
    }
}

/// Repeating a change changes nothing more and is not refused.
pub proof fn law_mutation_is_idempotent(
    entries: Seq<EntryView>,
    id: Seq<char>,
    mutation: MutationView,
    again: MutationView,
)
    requires
        !is_refused(entries, id, mutation),
        starts_from(again) == starts_from(mutation),
        leads_to(again) == leads_to(mutation),
    ensures
        ({
            let after = after_mutation(entries, id, mutation);
            &&& after_mutation(after, id, again) == after
            &&& !takes_place(after, id, again)
            &&& !is_refused(after, id, again)
        }),
{
    if takes_place(entries, id, mutation) {
        lemma_first_where_is(entries, has_id(id));
        let i = index_of_id(entries, id);
        lemma_index_after_update(entries, id, mutated(entries[i], mutation));
    }
}

/// A release undoes a hold: the entry is as it was, but for the note of an
/// earlier hold, which it drops.
pub proof fn law_release_undoes_hold(entries: Seq<EntryView>, id: Seq<char>, at: Seq<char>)
    requires
        takes_place(entries, id, MutationView::Hold { at }),
    ensures
        ({
            let i = index_of_id(entries, id);
            let held = after_mutation(entries, id, MutationView::Hold { at });
            &&& held[i].status == DispatchQueueEntryStatus::Held
            &&& forall|now: (int, int)| !is_leasable(held[i], now)
            &&& after_mutation(held, id, MutationView::Release) == entries.update(
                i,
                EntryView { held_at: None, ..entries[i] },
            )
            &&& entries[i].held_at is None ==> after_mutation(held, id, MutationView::Release)
                == entries
        }),
{
    lemma_first_where_is(entries, has_id(id));
    let i = index_of_id(entries, id);
    let hold = MutationView::Hold { at };
    lemma_index_after_update(entries, id, mutated(entries[i], hold));
    let back = after_mutation(after_mutation(entries, id, hold), id, MutationView::Release);
    assert(back =~= entries.update(i, EntryView { held_at: None, ..entries[i] }));
    if entries[i].held_at is None {
        assert(back =~= entries);
    }
}

/// After a drop the id is unknown, every entry with another id is still
/// there, and dropping again finds nothing.
pub proof fn law_drop_removes_the_id_alone(entries: Seq<EntryView>, id: Seq<char>)
    ensures
        ({
            let after = without(entries, id);
            &&& !knows(after, id)
            &&& forall|i: int|
                0 <= i < entries.len() && (#[trigger] entries[i]).entry_id != id
                    ==> after.contains(entries[i])
            &&& without(after, id) == after
            &&& (after == entries) == !knows(entries, id)
            &&& distinct_ids(entries) ==> distinct_ids(after)
        }),
{
    let after = without(entries, id);
    let p = other_than(id);
    lemma_first_where_is(after, has_id(id));
    lemma_first_where_is(entries, has_id(id));
    assert forall|k: int| 0 <= k < after.len() implies (#[trigger] after[k]).entry_id != id by {
        entries.lemma_filter_pred(p, k);
    }
    assert forall|i: int| 0 <= i < entries.len() && (#[trigger] entries[i]).entry_id
        != id implies after.contains(entries[i]) by {
        entries.lemma_filter_contains(p, i);
    }
    lemma_filter_all(after, p);
    if !knows(entries, id) {
        assert forall|i: int| 0 <= i < entries.len() implies p(#[trigger] entries[i]) by {
            assert(!has_id(id)(entries[i]));
        }
        lemma_filter_all(entries, p);
    }
    if distinct_ids(entries) {
        law_filter_keeps_ids_distinct(entries, p);
    }
}

/// Whether an entry is not leased.
pub open spec fn unleased() -> spec_fn(EntryView) -> bool {
    |entry: EntryView| entry.status != DispatchQueueEntryStatus::Assigned
}

/// A completion frame, stale or misrouted, never removes queued work that is
/// not leased, nor entries that it does not name.
pub proof fn law_completion_spares_queued_work(
    entries: Seq<EntryView>,
    id: Seq<char>,
    workflow_ref: Option<Seq<char>>,
    workflow_id: Option<Seq<char>>,
)
    ensures
        ({
            let after = after_completion(entries, id, workflow_ref, workflow_id);
            &&& after.filter(unleased()) == entries.filter(unleased())
            &&& after.filter(other_than(id)) == entries.filter(other_than(id))
            &&& distinct_ids(entries) ==> distinct_ids(after)
        }),
{
    let p = uncompleted(id, workflow_ref, workflow_id);
    lemma_filter_within(entries, p, unleased());
    lemma_filter_within(entries, p, other_than(id));
    if distinct_ids(entries) {
        law_filter_keeps_ids_distinct(entries, p);
    }
}

/// A completion frame for another workflow than the one that an entry is
/// leased to changes nothing.
pub proof fn law_completion_of_another_workflow_changes_nothing(
    entries: Seq<EntryView>,
    id: Seq<char>,
    workflow_ref: Option<Seq<char>>,
    workflow_id: Seq<char>,
)
    requires
        forall|i: int|
            0 <= i < entries.len() && (#[trigger] entries[i]).entry_id == id
                ==> entries[i].workflow_id is Some && entries[i].workflow_id != Some(workflow_id),
    ensures
        after_completion(entries, id, workflow_ref, Some(workflow_id)) == entries,
{
    lemma_filter_all(entries, uncompleted(id, workflow_ref, Some(workflow_id)));
}

/// A lease and the completion of its workflow take the entry out of the
/// queue.
pub proof fn law_completion_ends_a_lease(
    entries: Seq<EntryView>,
    max: nat,
    ids: Seq<Seq<char>>,
    exclude: Option<Seq<Seq<char>>>,
    now: UtcInstant,
    k: int,
)
    requires
        distinct_ids(entries),
        max > 0,
        0 <= k < lease_reply(entries, max, ids, exclude, now).len(),
    ensures
        ({
            let leased = lease_reply(entries, max, ids, exclude, now)[k];
            let after = after_completion(
                after_lease(entries, max, ids, exclude, now),
                leased.entry_id,
                Some(leased.subject_dispatch.workflow_ref),
                leased.workflow_id,
            );
            !knows(after, leased.entry_id)
        }),
{
    let left = swept(entries, now@);
    let picks = picked(left, max, exclude, now@);
    let before = after_lease(entries, max, ids, exclude, now);
    let leased = lease_reply(entries, max, ids, exclude, now)[k];
    lemma_picks_ascend(left, left.len() as int, max, exclude, now@);
    lemma_picks_leasable(left, left.len() as int, max, exclude, now@);
    law_lease_changes_only_what_it_leases(entries, max, ids, exclude, now);
    law_lease_keeps_ids_distinct(entries, max, ids, exclude, now);
    let id = leased.entry_id;
    let p = uncompleted(id, Some(leased.subject_dispatch.workflow_ref), leased.workflow_id);
    let after = before.filter(p);
    let at = picks[k];
    assert(before[at].dispatch is Some);
    assert(!p(before[at]));
    lemma_first_where_is(after, has_id(id));
    assert forall|j: int| 0 <= j < after.len() implies !has_id(id)(#[trigger] after[j]) by {
        let i = lemma_filter_from(before, p, j);
        assert(i != at);
        if i < at {
            assert(before[i].entry_id != before[at].entry_id);
        } else {
            assert(before[at].entry_id != before[i].entry_id);
        }
    }
}

/// Releasing a lease undoes it: the entry is as it was before the lease, with
/// no workflow attached and with an audit row that tells why. It may be leased
/// again.
pub proof fn law_release_undoes_a_lease(
    entry: EntryView,
    workflow_id: Seq<char>,
    at: Seq<char>,
    released_at: Seq<char>,
    reason: Seq<char>,
    now: (int, int),
)
    requires
        is_leasable(entry, now),
    ensures
        ({
            let back = unassigned(assigned(entry, workflow_id, at), released_at, reason);
            &&& back == (EntryView {
                workflow_id: None,
                assigned_at: None,
                audit_log: entry.audit_log.push(release_row(released_at, reason)),
                ..entry
            })
            &&& is_leasable(back, now)
        }),
{
}

/// Releasing a lease touches the released entry alone, and adds one row to
/// its audit log.
pub proof fn law_release_pending_touches_one_entry(
    before: Seq<EntryView>,
    after: Seq<EntryView>,
    id: Seq<char>,
    reason: Seq<char>,
    now: UtcInstant,
)
    requires
        knows(before, id),
        released_at(before, after, id, reason, now),
    ensures
        ({
            let i = index_of_id(before, id);
            &&& after.len() == before.len()
            &&& forall|j: int| 0 <= j < before.len() && j != i ==> #[trigger] after[j] == before[j]
            &&& after[i].entry_id == id
            &&& after[i].audit_log.drop_last() == before[i].audit_log
            &&& after[i].audit_log.last().reason == reason
            &&& index_of_id(after, id) == i
            &&& distinct_ids(before) ==> distinct_ids(after)
        }),
{
    lemma_first_where_is(before, has_id(id));
    let i = index_of_id(before, id);
    lemma_index_after_update(before, id, after[i]);
    assert(after[i].audit_log.drop_last() =~= before[i].audit_log);
    if distinct_ids(before) {
        assert forall|j: int, k: int| 0 <= j < k < after.len() implies (
        #[trigger] after[j]).entry_id != (#[trigger] after[k]).entry_id by {
            assert(before[j].entry_id != before[k].entry_id);
        }
    }
}

} // verus!
