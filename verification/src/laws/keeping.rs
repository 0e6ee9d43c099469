//! What every operation keeps: a well-kept queue.
//!
//! The empty queue is well kept, and so is every queue that the operations
//! make of it under new ids.
use vstd::prelude::*;

use crate::clock::{rfc3339_text, UtcInstant};
use crate::dispatch_queue_state::{DispatchQueueEntryStatus, EntryView};
use crate::dispatch_queue_store::all_identified;
use crate::enqueueing::{after_enqueue, after_schedule, duplicate_index};
use crate::identity::{is_uuid_v4, lemma_uuid_not_blank};
use crate::laws::enqueues::law_enqueue_keeps_ids_distinct;
use crate::laws::entries::{
    law_mutation_touches_one_entry, law_release_pending_touches_one_entry, law_release_undoes_hold,
};
use crate::laws::leases::{
    distinct_ids, law_filter_keeps_ids_distinct, law_lease_keeps_ids_distinct,
};
use crate::laws::orders::law_reorder_moves_by_id;
use crate::leasing::{
    after_lease, assigned, is_leasable, lemma_picks_ascend, lemma_picks_leasable, picked, survives,
    swept,
};
use crate::listing::{has_status_in, page, showable};
use crate::mutations::{
    after_completion, after_mutation, has_id, index_of_id, knows, other_than, release_row,
    takes_place, unassigned, uncompleted, without, MutationView,
};
use crate::ordering::{after_reorder, lemma_new_order, named_first, new_order};
use crate::queue_protocol::{wire_entry, wire_views, QueueListResponse, WireEntryView};
use crate::queue_service::{listed_at, released_at};
use crate::seqs::{lemma_filter_all, lemma_filter_from, lemma_first_where_is};
use crate::subject::DispatchView;
use crate::text::is_blank;

verus! {

/// Whether an entry has an envelope and a known status, and carries what its
/// status calls for and nothing else: a workflow and an assignment time while
/// it is assigned, a hold time while it is held.
pub open spec fn is_coherent(entry: EntryView) -> bool {
    entry.dispatch is Some && match entry.status {
        DispatchQueueEntryStatus::Pending => entry.workflow_id is None && entry.assigned_at is None
            && entry.held_at is None,
        DispatchQueueEntryStatus::Assigned => entry.workflow_id is Some && entry.assigned_at is Some
            && entry.held_at is None,
        DispatchQueueEntryStatus::Held => entry.workflow_id is None && entry.assigned_at is None
            && entry.held_at is Some,
        DispatchQueueEntryStatus::Unknown => false,
    }
}

/// Whether a queue is well kept: each entry has an id of its own, an envelope
/// and a known status, and carries what its status calls for.
pub open spec fn is_well_kept(entries: Seq<EntryView>) -> bool {
    &&& distinct_ids(entries)
    &&& all_identified(entries)
    &&& forall|i: int| 0 <= i < entries.len() ==> is_coherent(#[trigger] entries[i])
}

/// The empty queue is well kept.
pub proof fn law_the_empty_queue_is_well_kept()
    ensures
        is_well_kept(Seq::<EntryView>::empty()),
{
}

proof fn lemma_filter_is_well_kept(entries: Seq<EntryView>, p: spec_fn(EntryView) -> bool)
    requires
        is_well_kept(entries),
    ensures
        is_well_kept(entries.filter(p)),
{
    let kept = entries.filter(p);
    law_filter_keeps_ids_distinct(entries, p);
    assert forall|k: int| 0 <= k < kept.len() implies is_coherent(#[trigger] kept[k])
        && !is_blank(kept[k].entry_id) by {
        let i = lemma_filter_from(entries, p, k);
        assert(is_coherent(entries[i]));
    }
}

/// Sweeps, drops and completions keep a queue well kept.
pub proof fn law_removal_keeps_the_queue_well_kept(
    entries: Seq<EntryView>,
    now: (int, int),
    id: Seq<char>,
    workflow_ref: Option<Seq<char>>,
    workflow_id: Option<Seq<char>>,
)
    requires
        is_well_kept(entries),
    ensures
        is_well_kept(swept(entries, now)),
        is_well_kept(without(entries, id)),
        is_well_kept(after_completion(entries, id, workflow_ref, workflow_id)),
{
    lemma_filter_is_well_kept(entries, survives(now));
    lemma_filter_is_well_kept(entries, other_than(id));
    lemma_filter_is_well_kept(entries, uncompleted(id, workflow_ref, workflow_id));
}

/// An enqueue under a new id keeps a queue well kept.
pub proof fn law_enqueue_keeps_the_queue_well_kept(
    entries: Seq<EntryView>,
    dispatch: DispatchView,
    run_at: Option<Seq<char>>,
    expire_after_secs: Option<u64>,
    id: Seq<char>,
    now: UtcInstant,
)
    requires
        is_well_kept(entries),
        is_uuid_v4(id),
        !knows(entries, id),
    ensures
        is_well_kept(after_enqueue(entries, dispatch, id, now)),
        is_well_kept(after_schedule(entries, dispatch, run_at, expire_after_secs, id, now)),
{
    lemma_uuid_not_blank(id);
    lemma_filter_is_well_kept(entries, survives(now@));
    law_enqueue_keeps_ids_distinct(entries, dispatch, run_at, expire_after_secs, id, now);
    let left = swept(entries, now@);
    let after = after_schedule(entries, dispatch, run_at, expire_after_secs, id, now);
    assert forall|i: int| 0 <= i < after.len() implies is_coherent(#[trigger] after[i]) by {
        if i < left.len() {
            assert(after[i] == left[i]);
        }
    }
    if duplicate_index(left, dispatch) >= left.len() {
        let after = after_enqueue(entries, dispatch, id, now);
        assert forall|i: int| 0 <= i < after.len() implies is_coherent(#[trigger] after[i]) by {
            if i < left.len() {
                assert(after[i] == left[i]);
            }
        }
    }
}

/// A lease keeps a queue well kept.
pub proof fn law_lease_keeps_the_queue_well_kept(
    entries: Seq<EntryView>,
    max: nat,
    ids: Seq<Seq<char>>,
    exclude: Option<Seq<Seq<char>>>,
    now: UtcInstant,
)
    requires
        is_well_kept(entries),
    ensures
        is_well_kept(after_lease(entries, max, ids, exclude, now)),
{
    lemma_filter_is_well_kept(entries, survives(now@));
    law_lease_keeps_ids_distinct(entries, max, ids, exclude, now);
    if max > 0 {
        let left = swept(entries, now@);
        let picks = picked(left, max, exclude, now@);
        let after = after_lease(entries, max, ids, exclude, now);
        lemma_picks_leasable(left, left.len() as int, max, exclude, now@);
        lemma_picks_ascend(left, left.len() as int, max, exclude, now@);
        assert forall|i: int| 0 <= i < after.len() implies is_coherent(#[trigger] after[i])
            && !is_blank(after[i].entry_id) by {
            assert(is_coherent(left[i]));
            assert(!is_blank(left[i].entry_id));
            if picks.contains(i) {
                let k = picks.index_of(i);
                assert(is_leasable(left[picks[k]], now@));
            }
        }
    }
}

/// Holding, releasing and assigning keep a queue well kept.
pub proof fn law_mutation_keeps_the_queue_well_kept(
    entries: Seq<EntryView>,
    id: Seq<char>,
    mutation: MutationView,
)
    requires
        is_well_kept(entries),
    ensures
        is_well_kept(after_mutation(entries, id, mutation)),
{
    law_mutation_touches_one_entry(entries, id, mutation);
    lemma_first_where_is(entries, has_id(id));
    let after = after_mutation(entries, id, mutation);
    assert forall|i: int| 0 <= i < after.len() implies is_coherent(#[trigger] after[i])
        && !is_blank(after[i].entry_id) by {
        assert(is_coherent(entries[i]));
        assert(!is_blank(entries[i].entry_id));
    }
}

/// Releasing a lease keeps a queue well kept.
pub proof fn law_release_pending_keeps_the_queue_well_kept(
    before: Seq<EntryView>,
    after: Seq<EntryView>,
    id: Seq<char>,
    reason: Seq<char>,
    now: UtcInstant,
)
    requires
        is_well_kept(before),
        knows(before, id),
        before[index_of_id(before, id)].status == DispatchQueueEntryStatus::Assigned,
        released_at(before, after, id, reason, now),
    ensures
        is_well_kept(after),
{
    law_release_pending_touches_one_entry(before, after, id, reason, now);
    assert forall|i: int| 0 <= i < after.len() implies is_coherent(#[trigger] after[i])
        && !is_blank(after[i].entry_id) by {
        assert(is_coherent(before[i]));
        assert(!is_blank(before[i].entry_id));
    }
}

/// A reordering keeps a queue well kept.
pub proof fn law_reorder_keeps_the_queue_well_kept(entries: Seq<EntryView>, ids: Seq<Seq<char>>)
    requires
        is_well_kept(entries),
    ensures
        is_well_kept(after_reorder(entries, ids)),
{
    law_reorder_moves_by_id(entries, ids);
    lemma_new_order(entries, ids);
    let order = new_order(entries, ids);
    let after = named_first(entries, ids);
    assert forall|k: int| 0 <= k < after.len() implies is_coherent(#[trigger] after[k])
        && !is_blank(after[k].entry_id) by {
        assert(is_coherent(entries[order[k]]));
    }
}

/// In a well-kept queue, a release undoes a hold to the letter.
pub proof fn law_release_undoes_hold_exactly(entries: Seq<EntryView>, id: Seq<char>, at: Seq<char>)
    requires
        is_well_kept(entries),
        takes_place(entries, id, MutationView::Hold { at }),
    ensures
        after_mutation(
            after_mutation(entries, id, MutationView::Hold { at }),
            id,
            MutationView::Release,
        ) == entries,
{
    lemma_first_where_is(entries, has_id(id));
    assert(is_coherent(entries[index_of_id(entries, id)]));
    law_release_undoes_hold(entries, id, at);
}

/// In a well-kept queue, releasing a lease undoes it but for the audit row.
pub proof fn law_release_undoes_a_lease_exactly(
    entry: EntryView,
    workflow_id: Seq<char>,
    at: Seq<char>,
    now: UtcInstant,
    reason: Seq<char>,
)
    requires
        is_coherent(entry),
        entry.status == DispatchQueueEntryStatus::Pending,
    ensures
        ({
            let leased = assigned(entry, workflow_id, at);
            let released = rfc3339_text(now.secs, now.nanos);
            unassigned(leased, released, reason) == (EntryView {
                audit_log: entry.audit_log.push(release_row(released, reason)),
                ..entry
            })
        }),
{
}

// ----------------------------------------------------------- histories

/// An operation on the queue, with the time and the new id that it drew.
pub enum Operation {
    Enqueue { dispatch: DispatchView, id: Seq<char>, now: UtcInstant },
    Schedule {
        dispatch: DispatchView,
        run_at: Option<Seq<char>>,
        expire_after_secs: Option<u64>,
        id: Seq<char>,
        now: UtcInstant,
    },
    Lease {
        max: nat,
        ids: Seq<Seq<char>>,
        exclude: Option<Seq<Seq<char>>>,
        now: UtcInstant,
    },
    Mutate { id: Seq<char>, mutation: MutationView },
    Drop { id: Seq<char> },
    Reorder { ids: Seq<Seq<char>> },
    Complete {
        id: Seq<char>,
        workflow_ref: Option<Seq<char>>,
        workflow_id: Option<Seq<char>>,
    },
    ReleasePending { id: Seq<char>, reason: Seq<char>, now: UtcInstant },
}

/// The queue after an attempt to release the lease of the entry `id`. It
/// changes nothing where there is no such lease.
pub open spec fn after_release_pending(
    entries: Seq<EntryView>,
    id: Seq<char>,
    reason: Seq<char>,
    now: UtcInstant,
) -> Seq<EntryView> {
    let i = index_of_id(entries, id);
    if knows(entries, id) && entries[i].status == DispatchQueueEntryStatus::Assigned {
        entries.update(i, unassigned(entries[i], rfc3339_text(now.secs, now.nanos), reason))
    } else {
        entries
    }
}

/// The queue after an operation, refused ones included.
pub open spec fn after_operation(entries: Seq<EntryView>, operation: Operation) -> Seq<EntryView> {
    match operation {
        Operation::Enqueue { dispatch, id, now } => after_enqueue(entries, dispatch, id, now),
        Operation::Schedule { dispatch, run_at, expire_after_secs, id, now } => after_schedule(
            entries,
            dispatch,
            run_at,
            expire_after_secs,
            id,
            now,
        ),
        Operation::Lease { max, ids, exclude, now } => after_lease(
            entries,
            max,
            ids,
            exclude,
            now,
        ),
        Operation::Mutate { id, mutation } => after_mutation(entries, id, mutation),
        Operation::Drop { id } => without(entries, id),
        Operation::Reorder { ids } => after_reorder(entries, ids),
        Operation::Complete { id, workflow_ref, workflow_id } => after_completion(
            entries,
            id,
            workflow_ref,
            workflow_id,
        ),
        Operation::ReleasePending { id, reason, now } => after_release_pending(
            entries,
            id,
            reason,
            now,
        ),
    }
}

/// Whether an operation drew what the id generator and the clock can give it,
/// and an id that is new to the queue.
pub open spec fn is_well_drawn(entries: Seq<EntryView>, operation: Operation) -> bool {
    match operation {
        Operation::Enqueue { id, .. } => is_uuid_v4(id) && !knows(entries, id),
        Operation::Schedule { id, .. } => is_uuid_v4(id) && !knows(entries, id),
        Operation::ReleasePending { now, .. } => now.wf(),
        _ => true,
    }
}

/// The queue that the first `n` of `operations` make of an empty one.
pub open spec fn after_history(operations: Seq<Operation>, n: int) -> Seq<EntryView>
    decreases n,
{
    if n <= 0 {
        Seq::empty()
    } else {
        after_operation(after_history(operations, n - 1), operations[n - 1])
    }
}

/// Every operation keeps a queue well kept.
pub proof fn law_every_operation_keeps_the_queue_well_kept(
    entries: Seq<EntryView>,
    operation: Operation,
)
    requires
        is_well_kept(entries),
        is_well_drawn(entries, operation),
    ensures
        is_well_kept(after_operation(entries, operation)),
{
    match operation {
        Operation::Enqueue { dispatch, id, now } => {
            law_enqueue_keeps_the_queue_well_kept(entries, dispatch, None, None, id, now);
        },
        Operation::Schedule { dispatch, run_at, expire_after_secs, id, now } => {
            law_enqueue_keeps_the_queue_well_kept(
                entries,
                dispatch,
                run_at,
                expire_after_secs,
                id,
                now,
            );
        },
        Operation::Lease { max, ids, exclude, now } => {
            law_lease_keeps_the_queue_well_kept(entries, max, ids, exclude, now);
        },
        Operation::Mutate { id, mutation } => {
            law_mutation_keeps_the_queue_well_kept(entries, id, mutation);
        },
        Operation::Drop { id } => {
            law_removal_keeps_the_queue_well_kept(entries, (0, 0), id, None, None);
        },
        Operation::Reorder { ids } => {
            law_reorder_keeps_the_queue_well_kept(entries, ids);
        },
        Operation::Complete { id, workflow_ref, workflow_id } => {
            law_removal_keeps_the_queue_well_kept(entries, (0, 0), id, workflow_ref, workflow_id);
        },
        Operation::ReleasePending { id, reason, now } => {
            let after = after_release_pending(entries, id, reason, now);
            if knows(entries, id) && entries[index_of_id(entries, id)].status
                == DispatchQueueEntryStatus::Assigned {
                law_release_pending_keeps_the_queue_well_kept(entries, after, id, reason, now);
            }
        },
    }
}

/// Whatever operations are made on a queue that starts empty, refused ones
/// included, it is well kept after each of them.
pub proof fn law_every_history_leaves_a_well_kept_queue(operations: Seq<Operation>, n: int)
    requires
        0 <= n <= operations.len(),
        forall|k: int|
            0 <= k < n ==> is_well_drawn(
                after_history(operations, k),
                #[trigger] operations[k],
            ),
    ensures
        is_well_kept(after_history(operations, n)),
    decreases n,
{
    if n > 0 {
        law_every_history_leaves_a_well_kept_queue(operations, n - 1);
        assert(is_well_drawn(after_history(operations, n - 1), operations[n - 1]));
        law_every_operation_keeps_the_queue_well_kept(
            after_history(operations, n - 1),
            operations[n - 1],
        );
    }
}

/// Whether a shown entry has an id, and a known status with what it calls for:
/// an assigned entry has a workflow and an assignment time, a held one a hold
/// time, and no other has any of these.
pub open spec fn is_shown_coherent(entry: WireEntryView) -> bool {
    &&& !is_blank(entry.entry_id)
    &&& entry.status == "pending"@ || entry.status == "assigned"@ || entry.status == "held"@
    &&& (entry.status == "held"@) == (entry.held_at is Some)
    &&& (entry.status == "assigned"@) == (entry.workflow_id is Some)
    &&& (entry.status == "assigned"@) == (entry.assigned_at is Some)
}

/// An unfiltered listing of a well-kept queue shows every entry, in queue
/// order, under distinct ids, and its total and counts say as many.
pub proof fn law_a_listing_shows_every_entry(
    entries: Seq<EntryView>,
    now: UtcInstant,
    response: QueueListResponse,
)
    requires
        is_well_kept(entries),
        response.total == entries.filter(has_status_in(seq![])).len(),
        listed_at(entries, seq![], None, None, now, response),
    ensures
        ({
            let at = rfc3339_text(now.secs, now.nanos);
            let seen = wire_views(response.entries@);
            &&& seen == entries.map_values(|entry: EntryView| wire_entry(entry, at))
            &&& response.entries@.len() == entries.len()
            &&& response.total == entries.len()
            &&& response.stats.total == entries.len()
            &&& forall|i: int| 0 <= i < seen.len() ==> is_shown_coherent(#[trigger] seen[i])
            &&& forall|i: int, j: int|
                0 <= i < j < seen.len() ==> (#[trigger] seen[i]).entry_id != (
                #[trigger] seen[j]).entry_id
        }),
{
    let at = rfc3339_text(now.secs, now.nanos);
    let seen = wire_views(response.entries@);
    lemma_filter_all(entries, has_status_in(seq![]));
    assert(page(entries, 0, None) =~= entries);
    assert forall|i: int| 0 <= i < entries.len() implies showable()(#[trigger] entries[i]) by {
        assert(is_coherent(entries[i]));
    }
    lemma_filter_all(entries, showable());
    assert(seen =~= entries.map_values(|entry: EntryView| wire_entry(entry, at)));
    assert(seen.len() == response.entries@.len());
    assert forall|i: int| 0 <= i < seen.len() implies is_shown_coherent(#[trigger] seen[i]) by {
        assert(is_coherent(entries[i]));
        assert(!is_blank(entries[i].entry_id));
        lemma_wire_forms();
    }
    assert forall|i: int, j: int| 0 <= i < j < seen.len() implies (#[trigger] seen[i]).entry_id != (
    #[trigger] seen[j]).entry_id by {
        assert(entries[i].entry_id != entries[j].entry_id);
    }
}

proof fn lemma_wire_forms()
    ensures
        "pending"@ != "assigned"@,
        "pending"@ != "held"@,
        "assigned"@ != "held"@,
{
    reveal_strlit("pending");
    reveal_strlit("assigned");
    reveal_strlit("held");
    assert("pending"@[0] == 'p' && "assigned"@[0] == 'a' && "held"@[0] == 'h');
}

} // verus!
