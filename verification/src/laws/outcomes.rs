//! What the operations on single entries come to, told by entries alone.
use vstd::prelude::*;

use crate::clock::{rfc3339_text, UtcInstant};
use crate::dispatch_queue_state::{AuditView, DispatchQueueEntryStatus, EntryView};
use crate::handlers::mutation_reply;
use crate::leasing::Step;
use crate::mutations::{
    after_completion, after_mutation, has_id, index_of_id, is_terminal, knows, mutation_answer,
    other_than, removal_answer, uncompleted, without, MutationView, QueueMutationError,
};
use crate::queue_protocol::QueueMutationResponse;
use crate::queue_service::released_at;
use crate::rpc::{ErrorCode, RpcError};
use crate::seqs::{lemma_filter_all, lemma_filter_at, lemma_first_where, lemma_first_where_is};

verus! {

/// An id is known exactly when some entry has it, and it stands for the first
/// entry that has it.
pub proof fn law_an_id_stands_for_its_first_entry(entries: Seq<EntryView>, id: Seq<char>)
    ensures
        knows(entries, id) <==> exists|i: int|
            0 <= i < entries.len() && (#[trigger] entries[i]).entry_id == id,
        knows(entries, id) ==> {
            let i = index_of_id(entries, id);
            &&& 0 <= i < entries.len()
            &&& entries[i].entry_id == id
            &&& forall|j: int| 0 <= j < i ==> (#[trigger] entries[j]).entry_id != id
        },
{
    let p = has_id(id);
    lemma_first_where_is(entries, p);
    let i = index_of_id(entries, id);
    assert forall|j: int| 0 <= j < i implies (#[trigger] entries[j]).entry_id != id by {
        assert(!p(entries[j]));
    }
    if knows(entries, id) {
        assert(p(entries[i]));
    }
}

proof fn lemma_first_is_index(entries: Seq<EntryView>, id: Seq<char>, i: int)
    requires
        0 <= i < entries.len(),
        entries[i].entry_id == id,
        forall|j: int| 0 <= j < i ==> (#[trigger] entries[j]).entry_id != id,
    ensures
        index_of_id(entries, id) == i,
{
    lemma_first_where(entries, has_id(id), i);
}

/// Whether a change takes place depends on the named entry alone, whatever the
/// other entries are. A pending entry can be held or assigned and a held one
/// released; the entry then has the new status and time, and the answer says
/// that it changed. An entry that is already there stays as it is, and any
/// other is refused.
pub proof fn law_a_change_depends_on_the_named_entry_alone(
    entries: Seq<EntryView>,
    id: Seq<char>,
    i: int,
    mutation: MutationView,
    answer: Result<Step<QueueMutationResponse>, QueueMutationError>,
)
    requires
        0 <= i < entries.len(),
        entries[i].entry_id == id,
        forall|j: int| 0 <= j < i ==> (#[trigger] entries[j]).entry_id != id,
        mutation_answer(entries, id, mutation, answer),
    ensures
        ({
            let entry = entries[i];
            let after = after_mutation(entries, id, mutation);
            match mutation {
                MutationView::Hold { at } => match entry.status {
                    DispatchQueueEntryStatus::Pending => after == entries.update(
                        i,
                        EntryView {
                            status: DispatchQueueEntryStatus::Held,
                            held_at: Some(at),
                            ..entry
                        },
                    ) && answer is Ok && answer->Ok_0.reply.changed,
                    DispatchQueueEntryStatus::Held => after == entries && answer is Ok
                        && !answer->Ok_0.reply.changed,
                    _ => after == entries && answer is Err,
                },
                MutationView::Release => match entry.status {
                    DispatchQueueEntryStatus::Held => after == entries.update(
                        i,
                        EntryView {
                            status: DispatchQueueEntryStatus::Pending,
                            held_at: None,
                            ..entry
                        },
                    ) && answer is Ok && answer->Ok_0.reply.changed,
                    DispatchQueueEntryStatus::Pending => after == entries && answer is Ok
                        && !answer->Ok_0.reply.changed,
                    _ => after == entries && answer is Err,
                },
                MutationView::Assign { workflow_id, fallback, at } => match entry.status {
                    DispatchQueueEntryStatus::Pending => after == entries.update(
                        i,
                        EntryView {
                            status: DispatchQueueEntryStatus::Assigned,
                            workflow_id: match (workflow_id, entry.workflow_id) {
                                (Some(given), _) => Some(given),
                                (None, Some(attached)) => Some(attached),
                                (None, None) => Some(fallback),
                            },
                            assigned_at: Some(at),
                            ..entry
                        },
                    ) && answer is Ok && answer->Ok_0.reply.changed,
                    DispatchQueueEntryStatus::Assigned => after == entries && answer is Ok
                        && !answer->Ok_0.reply.changed,
                    _ => after == entries && answer is Err,
                },
            }
        }),
        answer matches Ok(step) ==> !step.reply.not_found && step.persist == step.reply.changed,
        answer matches Err(QueueMutationError::NotPending { entry_id }) ==> entry_id@ == id,
{
    lemma_first_is_index(entries, id, i);
}

/// What the other entries are makes no difference to a change: on two queues
/// whose first entry with the id is the same, the entry is changed alike and
/// the answer is the same.
pub proof fn law_the_other_entries_do_not_matter_to_a_change(
    entries: Seq<EntryView>,
    i: int,
    others: Seq<EntryView>,
    k: int,
    mutation: MutationView,
    answer: Result<Step<QueueMutationResponse>, QueueMutationError>,
    other_answer: Result<Step<QueueMutationResponse>, QueueMutationError>,
)
    requires
        0 <= i < entries.len(),
        forall|j: int| 0 <= j < i ==> (#[trigger] entries[j]).entry_id != entries[i].entry_id,
        0 <= k < others.len(),
        forall|j: int| 0 <= j < k ==> (#[trigger] others[j]).entry_id != others[k].entry_id,
        others[k] == entries[i],
        mutation_answer(entries, entries[i].entry_id, mutation, answer),
        mutation_answer(others, others[k].entry_id, mutation, other_answer),
    ensures
        after_mutation(entries, entries[i].entry_id, mutation)[i] == after_mutation(
            others,
            others[k].entry_id,
            mutation,
        )[k],
        answer is Ok <==> other_answer is Ok,
        answer is Ok ==> answer->Ok_0.reply == other_answer->Ok_0.reply && answer->Ok_0.persist
            == other_answer->Ok_0.persist,
{
    let id = entries[i].entry_id;
    law_a_change_depends_on_the_named_entry_alone(entries, id, i, mutation, answer);
    law_a_change_depends_on_the_named_entry_alone(others, id, k, mutation, other_answer);
}

/// A change of an entry that is not there changes nothing and says so.
pub proof fn law_a_change_of_an_unknown_entry_is_not_found(
    entries: Seq<EntryView>,
    id: Seq<char>,
    mutation: MutationView,
    answer: Result<Step<QueueMutationResponse>, QueueMutationError>,
)
    requires
        forall|j: int| 0 <= j < entries.len() ==> (#[trigger] entries[j]).entry_id != id,
        mutation_answer(entries, id, mutation, answer),
    ensures
        after_mutation(entries, id, mutation) == entries,
        answer matches Ok(step) && step.reply.not_found && !step.reply.changed && !step.persist,
{
    law_an_id_stands_for_its_first_entry(entries, id);
}

/// A client gets the answer of a change as it is, and a refusal as a failure
/// that names the entry.
pub proof fn law_a_refused_change_names_the_entry(
    entries: Seq<EntryView>,
    id: Seq<char>,
    mutation: MutationView,
    answer: Result<Step<QueueMutationResponse>, QueueMutationError>,
    reply: Result<Step<QueueMutationResponse>, RpcError>,
)
    requires
        mutation_answer(entries, id, mutation, answer),
        mutation_reply(entries, id, mutation, reply),
    ensures
        match (answer, reply) {
            (Ok(step), Ok(told)) => told.reply == step.reply && told.persist == step.persist,
            (Err(_), Err(error)) => {
                &&& error.code == ErrorCode::EntryNotPending
                &&& error.message@ == "queue entry "@ + id
                    + " is not in the expected pre-mutation status"@
                &&& error.data is None
            },
            _ => false,
        },
{
}

/// A drop removes every entry with the id and nothing else, and keeps the
/// order of what stays. The result names the indices that stay. The answer
/// says whether there was anything to remove.
pub proof fn law_a_drop_keeps_the_others_in_order(
    entries: Seq<EntryView>,
    id: Seq<char>,
    step: Step<QueueMutationResponse>,
) -> (at: Seq<int>)
    requires
        removal_answer(entries, without(entries, id), step),
    ensures
        at.len() == without(entries, id).len(),
        forall|j: int, k: int| 0 <= j < k < at.len() ==> at[j] < at[k],
        forall|k: int|
            0 <= k < at.len() ==> 0 <= #[trigger] at[k] < entries.len() && without(entries, id)[k]
                == entries[at[k]],
        forall|i: int|
            0 <= i < entries.len() ==> (#[trigger] at.contains(i) <==> entries[i].entry_id != id),
        step.reply.changed <==> exists|i: int|
            0 <= i < entries.len() && (#[trigger] entries[i]).entry_id == id,
        step.reply.not_found == !step.reply.changed,
        step.persist == step.reply.changed,
{
    let p = other_than(id);
    let at = lemma_filter_at(entries, p);
    if exists|i: int| 0 <= i < entries.len() && (#[trigger] entries[i]).entry_id == id {
        let i = choose|i: int| 0 <= i < entries.len() && (#[trigger] entries[i]).entry_id == id;
        if without(entries, id) == entries {
            entries.lemma_filter_pred(p, i);
        }
    } else {
        assert forall|i: int| 0 <= i < entries.len() implies p(#[trigger] entries[i]) by {}
        lemma_filter_all(entries, p);
    }
    at
}

/// A completion frame removes exactly the assigned entries with its id of which
/// nothing that it gives differs: of the workflow reference and the workflow
/// id, each may be given or left out, and each that is given has to be the
/// entry's own where the entry has one. The order of what stays is kept. The
/// result names the indices that stay.
pub proof fn law_a_completion_removes_what_matches(
    entries: Seq<EntryView>,
    id: Seq<char>,
    workflow_ref: Option<Seq<char>>,
    workflow_id: Option<Seq<char>>,
    step: Step<QueueMutationResponse>,
) -> (at: Seq<int>)
    requires
        removal_answer(
            entries,
            after_completion(entries, id, workflow_ref, workflow_id),
            step,
        ),
    ensures
        ({
            let after = after_completion(entries, id, workflow_ref, workflow_id);
            let matching = |entry: EntryView|
                {
                    &&& entry.entry_id == id
                    &&& entry.status == DispatchQueueEntryStatus::Assigned
                    &&& match (workflow_ref, entry.dispatch) {
                        (Some(given), Some(dispatch)) => dispatch.workflow_ref == given,
                        _ => true,
                    }
                    &&& match (workflow_id, entry.workflow_id) {
                        (Some(given), Some(own)) => own == given,
                        _ => true,
                    }
                };
            &&& at.len() == after.len()
            &&& forall|j: int, k: int| 0 <= j < k < at.len() ==> at[j] < at[k]
            &&& forall|k: int|
                0 <= k < at.len() ==> 0 <= #[trigger] at[k] < entries.len() && after[k]
                    == entries[at[k]]
            &&& forall|i: int|
                0 <= i < entries.len() ==> (#[trigger] at.contains(i) <==> !matching(entries[i]))
            &&& step.reply.changed <==> exists|i: int|
                0 <= i < entries.len() && matching(#[trigger] entries[i])
        }),
        step.reply.not_found == !step.reply.changed,
        step.persist == step.reply.changed,
{
    let p = uncompleted(id, workflow_ref, workflow_id);
    let after = after_completion(entries, id, workflow_ref, workflow_id);
    let at = lemma_filter_at(entries, p);
    if exists|i: int| 0 <= i < entries.len() && !p(#[trigger] entries[i]) {
        let i = choose|i: int| 0 <= i < entries.len() && !p(#[trigger] entries[i]);
        if after == entries {
            entries.lemma_filter_pred(p, i);
        }
    } else {
        lemma_filter_all(entries, p);
    }
    at
}

/// The lone assigned entry of an id is gone after a completion frame, for each
/// combination of given and omitted workflow reference and workflow id, as soon
/// as every given one is the entry's own; and the queue is unchanged as soon as
/// a given one differs.
pub proof fn law_a_completion_matches_what_is_given(
    entries: Seq<EntryView>,
    i: int,
    own_id: Seq<char>,
    other_ref: Seq<char>,
    other_id: Seq<char>,
)
    requires
        0 <= i < entries.len(),
        entries[i].status == DispatchQueueEntryStatus::Assigned,
        entries[i].dispatch is Some,
        entries[i].workflow_id == Some(own_id),
        forall|j: int|
            0 <= j < entries.len() && j != i ==> (#[trigger] entries[j]).entry_id
                != entries[i].entry_id,
        other_ref != entries[i].dispatch->0.workflow_ref,
        other_id != own_id,
    ensures
        ({
            let id = entries[i].entry_id;
            let own_ref = entries[i].dispatch->0.workflow_ref;
            &&& after_completion(entries, id, None, None) == entries.remove(i)
            &&& after_completion(entries, id, Some(own_ref), None) == entries.remove(i)
            &&& after_completion(entries, id, None, Some(own_id)) == entries.remove(i)
            &&& after_completion(entries, id, Some(own_ref), Some(own_id)) == entries.remove(i)
            &&& after_completion(entries, id, Some(other_ref), None) == entries
            &&& after_completion(entries, id, None, Some(other_id)) == entries
            &&& after_completion(entries, id, Some(other_ref), Some(own_id)) == entries
            &&& after_completion(entries, id, Some(own_ref), Some(other_id)) == entries
            &&& after_completion(entries, id, Some(other_ref), Some(other_id)) == entries
        }),
{
    let id = entries[i].entry_id;
    let own_ref = entries[i].dispatch->0.workflow_ref;
    lemma_filter_out_one(entries, uncompleted(id, None, None), i);
    lemma_filter_out_one(entries, uncompleted(id, Some(own_ref), None), i);
    lemma_filter_out_one(entries, uncompleted(id, None, Some(own_id)), i);
    lemma_filter_out_one(entries, uncompleted(id, Some(own_ref), Some(own_id)), i);
    lemma_filter_all(entries, uncompleted(id, Some(other_ref), None));
    lemma_filter_all(entries, uncompleted(id, None, Some(other_id)));
    lemma_filter_all(entries, uncompleted(id, Some(other_ref), Some(own_id)));
    lemma_filter_all(entries, uncompleted(id, Some(own_ref), Some(other_id)));
    lemma_filter_all(entries, uncompleted(id, Some(other_ref), Some(other_id)));
}

proof fn lemma_filter_out_one(entries: Seq<EntryView>, p: spec_fn(EntryView) -> bool, i: int)
    requires
        0 <= i < entries.len(),
        !p(entries[i]),
        forall|j: int| 0 <= j < entries.len() && j != i ==> p(#[trigger] entries[j]),
    ensures
        entries.filter(p) == entries.remove(i),
{
    let head = entries.take(i);
    let tail = entries.skip(i + 1);
    let out = seq![entries[i]];
    assert(entries =~= head + out + tail);
    Seq::filter_distributes_over_add(head, out, p);
    Seq::filter_distributes_over_add(head + out, tail, p);
    lemma_filter_all(head, p);
    lemma_filter_all(tail, p);
    assert(out.filter(p) =~= Seq::<EntryView>::empty()) by {
        let at = lemma_filter_at(out, p);
        if at.len() > 0 {
            assert(at[0] == 0);
            assert(at.contains(0));
        }
    }
    assert(entries.filter(p) =~= entries.remove(i));
}

/// Three statuses end a workflow.
pub proof fn law_three_statuses_end_a_workflow(status: Seq<char>)
    ensures
        is_terminal(status) <==> (status == "completed"@ || status == "failed"@ || status
            == "cancelled"@),
{
}

/// Releasing a lease makes the named entry pending without workflow and
/// assignment time, adds one audit row that tells when and why, and leaves
/// everything else as it was.
pub proof fn law_a_released_lease_is_audited(
    before: Seq<EntryView>,
    after: Seq<EntryView>,
    id: Seq<char>,
    i: int,
    reason: Seq<char>,
    now: UtcInstant,
)
    requires
        0 <= i < before.len(),
        before[i].entry_id == id,
        forall|j: int| 0 <= j < i ==> (#[trigger] before[j]).entry_id != id,
        released_at(before, after, id, reason, now),
    ensures
        now.wf(),
        after == before.update(
            i,
            EntryView {
                status: DispatchQueueEntryStatus::Pending,
                workflow_id: None,
                assigned_at: None,
                audit_log: before[i].audit_log.push(
                    AuditView {
                        at: rfc3339_text(now.secs, now.nanos),
                        method: "queue/release_pending"@,
                        from_status: "assigned"@,
                        to_status: "pending"@,
                        reason,
                    },
                ),
                ..before[i]
            },
        ),
{
    lemma_first_is_index(before, id, i);
}

} // verus!
