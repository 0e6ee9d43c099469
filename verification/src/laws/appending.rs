//! What an enqueue comes to, told by entries alone.
use vstd::prelude::*;

use crate::clock::{rfc3339_text, UtcInstant};
use crate::dispatch_queue_state::{
    effective_subject, effective_task, fresh_entry, DispatchQueueEntryStatus, EntryView,
};
use crate::enqueueing::{
    about_subject, after_enqueue, after_schedule, collision_index, duplicate_index, duplicates,
    enqueue_answer, schedule_answer, EnqueueOutcome,
};
use crate::leasing::{survives, swept, Step};
use crate::seqs::{lemma_filter_all, lemma_first_where_is};
use crate::subject::DispatchView;

verus! {

/// A fresh entry is pending, carries the envelope and the keys taken from it,
/// and has no history.
pub proof fn law_a_fresh_entry_is_pending(
    dispatch: DispatchView,
    run_at: Option<Seq<char>>,
    expire_after_secs: Option<u64>,
    id: Seq<char>,
    at: Seq<char>,
)
    ensures
        ({
            let entry = fresh_entry(dispatch, run_at, expire_after_secs, id, at);
            &&& entry.entry_id == id
            &&& entry.dispatch == Some(dispatch)
            &&& entry.subject_id == Some(dispatch.subject_key)
            &&& dispatch.task_id matches Some(task) ==> entry.task_id == task
            &&& dispatch.task_id is None ==> entry.task_id.len() == 0
            &&& entry.status == DispatchQueueEntryStatus::Pending
            &&& entry.workflow_id is None
            &&& entry.enqueued_at == Some(at)
            &&& entry.assigned_at is None
            &&& entry.held_at is None
            &&& entry.run_at == run_at
            &&& entry.expire_after_secs == expire_after_secs
            &&& entry.audit_log.len() == 0
        }),
{
}

/// An idempotent enqueue sweeps, and then appends one fresh entry unless an
/// entry of known status stands for the same work: one whose envelope has the
/// same subject key and the same workflow or, without an envelope, one that is
/// tracked under the subject key and has the task of the dispatch. The answer
/// names the new entry or the first such one, and the queue has to be saved
/// exactly when it changed.
pub proof fn law_an_enqueue_appends_unless_the_work_is_there(
    entries: Seq<EntryView>,
    dispatch: DispatchView,
    id: Seq<char>,
    now: UtcInstant,
    step: Step<EnqueueOutcome>,
)
    requires
        enqueue_answer(entries, dispatch, id, now, step),
    ensures
        ({
            let left = swept(entries, now@);
            let after = after_enqueue(entries, dispatch, id, now);
            let same = |entry: EntryView|
                {
                    &&& entry.status != DispatchQueueEntryStatus::Unknown
                    &&& match entry.dispatch {
                        Some(own) => own.subject_key == dispatch.subject_key && own.workflow_ref
                            == dispatch.workflow_ref,
                        None => {
                            &&& effective_subject(entry) == dispatch.subject_key
                            &&& effective_task(entry) matches Some(task)
                            &&& dispatch.task_id == Some(task)
                        },
                    }
                };
            &&& step.reply.enqueued <==> forall|i: int|
                0 <= i < left.len() ==> !same(#[trigger] left[i])
            &&& step.reply.enqueued ==> {
                &&& step.reply.entry_id@ == id
                &&& after == left.push(
                    fresh_entry(dispatch, None, None, id, rfc3339_text(now.secs, now.nanos)),
                )
            }
            &&& !step.reply.enqueued ==> {
                &&& after == left
                &&& exists|i: int|
                    {
                        &&& 0 <= i < left.len()
                        &&& same(#[trigger] left[i])
                        &&& step.reply.entry_id@ == left[i].entry_id
                        &&& forall|j: int| 0 <= j < i ==> !same(#[trigger] left[j])
                    }
            }
            &&& step.reply.subject_id@ == dispatch.subject_key
            &&& step.reply.warning is None
            &&& step.persist <==> after != entries
        }),
{
    let left = swept(entries, now@);
    let after = after_enqueue(entries, dispatch, id, now);
    let p = duplicates(dispatch);
    lemma_first_where_is(left, p);
    let i = duplicate_index(left, dispatch);
    if i < left.len() {
        assert(p(left[i]));
    }
    assert forall|j: int| 0 <= j < i implies !p(#[trigger] left[j]) by {}
    if step.reply.enqueued {
        if after == entries {
            // The appended entry survives a sweep, so there would be one more.
            reveal(Seq::filter);
            assert(entries.drop_last() =~= left);
            lemma_sweep_twice(entries, now);
        }
    }
}

/// A swept queue has nothing more to sweep.
proof fn lemma_sweep_twice(entries: Seq<EntryView>, now: UtcInstant)
    ensures
        swept(swept(entries, now@), now@) == swept(entries, now@),
{
    let p = survives(now@);
    let left = swept(entries, now@);
    assert forall|k: int| 0 <= k < left.len() implies p(#[trigger] left[k]) by {
        entries.lemma_filter_pred(p, k);
    }
    lemma_filter_all(left, p);
}

/// A scheduled enqueue sweeps, and then appends one fresh entry with the given
/// run time and grace window, whatever else is queued. It warns exactly where
/// an entry of the same subject was there, and names the first such one: one
/// whose envelope has the subject key or, without an envelope, one that is
/// tracked under it. It always has to be saved.
pub proof fn law_a_scheduled_enqueue_always_appends(
    entries: Seq<EntryView>,
    dispatch: DispatchView,
    run_at: Option<Seq<char>>,
    expire_after_secs: Option<u64>,
    id: Seq<char>,
    now: UtcInstant,
    step: Step<EnqueueOutcome>,
)
    requires
        schedule_answer(entries, dispatch, id, now, step),
    ensures
        ({
            let left = swept(entries, now@);
            let key = dispatch.subject_key;
            let about = |entry: EntryView|
                match entry.dispatch {
                    Some(own) => own.subject_key == key,
                    None => effective_subject(entry) == key,
                };
            &&& after_schedule(entries, dispatch, run_at, expire_after_secs, id, now) == left.push(
                fresh_entry(
                    dispatch,
                    run_at,
                    expire_after_secs,
                    id,
                    rfc3339_text(now.secs, now.nanos),
                ),
            )
            &&& step.reply.enqueued
            &&& step.reply.entry_id@ == id
            &&& step.reply.subject_id@ == key
            &&& step.reply.warning is None <==> forall|i: int|
                0 <= i < left.len() ==> !about(#[trigger] left[i])
            &&& step.reply.warning matches Some(warning) ==> exists|i: int|
                {
                    &&& 0 <= i < left.len()
                    &&& about(#[trigger] left[i])
                    &&& forall|j: int| 0 <= j < i ==> !about(#[trigger] left[j])
                    &&& warning@ == "subject "@ + key + " already has queue entry "@
                        + left[i].entry_id + " ("@ + match left[i].status {
                        DispatchQueueEntryStatus::Pending => "pending"@,
                        DispatchQueueEntryStatus::Assigned => "assigned"@,
                        DispatchQueueEntryStatus::Held => "held"@,
                        DispatchQueueEntryStatus::Unknown => "unknown"@,
                    } + ")"@
                }
            &&& step.persist
        }),
{
    let left = swept(entries, now@);
    let p = about_subject(dispatch.subject_key);
    lemma_first_where_is(left, p);
    let i = collision_index(left, dispatch.subject_key);
    if i < left.len() {
        assert(p(left[i]));
    }
    assert forall|j: int| 0 <= j < i implies !p(#[trigger] left[j]) by {}
}

} // verus!
