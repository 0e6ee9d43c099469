//! Adding entries to the queue.
use vstd::prelude::*;
use vstd::string::*;

use crate::clock::UtcInstant;
#[allow(unused_imports)]
use crate::clock::rfc3339_text;
#[allow(unused_imports)]
use crate::dispatch_queue_state::{
    effective_subject, effective_task, fresh_entry, wire_status, EntryView,
};
use crate::dispatch_queue_state::{
    DispatchQueueEntry, DispatchQueueEntryStatus, DispatchQueueState,
};
use crate::leasing::{sweep_expired, Step};
#[allow(unused_imports)]
use crate::leasing::swept;
use crate::seqs::position;
#[allow(unused_imports)]
use crate::seqs::first_where;
use crate::subject::SubjectDispatch;
#[allow(unused_imports)]
use crate::subject::DispatchView;
use crate::text::same_text;
#[allow(unused_imports)]
use crate::text::opt_text;

verus! {

/// Result of a single enqueue.
#[derive(Debug, Clone)]
pub struct EnqueueOutcome {
    /// `true` if a new entry was appended; `false` for an idempotent no-op.
    pub enqueued: bool,
    /// Stable entry id (existing or newly minted).
    pub entry_id: String,
    /// Subject key of the dispatch envelope.
    pub subject_id: String,
    /// What the caller should know of other entries for the same subject.
    pub warning: Option<String>,
}

// ------------------------------------------------------------- subjects

/// Whether an entry is for the subject with the key `key`. The envelope's own
/// key tells where there is an envelope, else the tracked subject id.
pub open spec fn is_for_subject(entry: EntryView, key: Seq<char>) -> bool {
    if entry.dispatch is Some {
        entry.dispatch->0.subject_key == key
    } else {
        effective_subject(entry) == key
    }
}

fn entry_is_for_subject(entry: &DispatchQueueEntry, key: &str) -> (same: bool)
    ensures
        same == is_for_subject(entry@, key@),
{
    match &entry.dispatch {
        Some(dispatch) => same_text(dispatch.subject_key.as_str(), key),
        None => same_text(entry.subject_id_ref(), key),
    }
}

// --------------------------------------------------- idempotent enqueue

/// Whether an entry stands for the same work as an envelope: it has the same
/// subject and the same workflow, and its status is known. An entry without
/// an envelope stands for the same work where the task is the same.
pub open spec fn is_duplicate(entry: EntryView, dispatch: DispatchView) -> bool {
    &&& is_for_subject(entry, dispatch.subject_key)
    &&& entry.status != DispatchQueueEntryStatus::Unknown
    &&& if entry.dispatch is Some {
        entry.dispatch->0.workflow_ref == dispatch.workflow_ref
    } else {
        effective_task(entry) is Some && effective_task(entry) == dispatch.task_id
    }
}

/// Whether an entry stands for the same work as `dispatch`.
pub open spec fn duplicates(dispatch: DispatchView) -> spec_fn(EntryView) -> bool {
    |entry: EntryView| is_duplicate(entry, dispatch)
}

/// The index of the first entry for the same work as `dispatch`; the length
/// of the queue where there is none.
pub open spec fn duplicate_index(entries: Seq<EntryView>, dispatch: DispatchView) -> int {
    first_where(entries, duplicates(dispatch))
}

/// The queue after an idempotent enqueue: swept, and with a fresh entry at
/// its end unless an entry stands for the same work.
pub open spec fn after_enqueue(
    entries: Seq<EntryView>,
    dispatch: DispatchView,
    entry_id: Seq<char>,
    now: UtcInstant,
) -> Seq<EntryView> {
    let left = swept(entries, now@);
    if duplicate_index(left, dispatch) < left.len() {
        left
    } else {
        left.push(
            fresh_entry(dispatch, None, None, entry_id, rfc3339_text(now.secs, now.nanos)),
        )
    }
}

/// Whether `step` is what an idempotent enqueue answers.
pub open spec fn enqueue_answer(
    entries: Seq<EntryView>,
    dispatch: DispatchView,
    entry_id: Seq<char>,
    now: UtcInstant,
    step: Step<EnqueueOutcome>,
) -> bool {
    let left = swept(entries, now@);
    let i = duplicate_index(left, dispatch);
    &&& step.reply.enqueued == (i == left.len())
    &&& step.reply.entry_id@ == if i < left.len() {
        left[i].entry_id
    } else {
        entry_id
    }
    &&& step.reply.subject_id@ == dispatch.subject_key
    &&& step.reply.warning is None
    &&& step.persist == (step.reply.enqueued || left != entries)
}

fn entry_is_duplicate(entry: &DispatchQueueEntry, dispatch: &SubjectDispatch) -> (same: bool)
    ensures
        same == is_duplicate(entry@, dispatch@),
{
    if !entry_is_for_subject(entry, dispatch.subject_key.as_str()) {
        return false;
    }
    if entry.status == DispatchQueueEntryStatus::Unknown {
        return false;
    }
    match &entry.dispatch {
        Some(existing) => same_text(
            existing.workflow_ref.as_str(),
            dispatch.workflow_ref.as_str(),
        ),
        None => match (entry.task_id_ref(), &dispatch.task_id) {
            (Some(existing), Some(incoming)) => same_text(existing, incoming.as_str()),
            _ => false,
        },
    }
}

/// Appends an envelope as a fresh entry with the id `entry_id`, unless an
/// entry stands for the same work. The queue is swept first.
pub fn enqueue_at(
    state: &mut DispatchQueueState,
    dispatch: SubjectDispatch,
    entry_id: String,
    now: UtcInstant,
) -> (step: Step<EnqueueOutcome>)
    requires
        now.wf(),
    ensures
        final(state)@ == after_enqueue(old(state)@, dispatch@, entry_id@, now),
        enqueue_answer(old(state)@, dispatch@, entry_id@, now, step),
{
    let dropped = sweep_expired(state, now);
    let ghost left = state@;
    let subject_id = dispatch.subject_key.clone();
    let wanted = |entry: &DispatchQueueEntry| -> (same: bool)
        ensures
            same == duplicates(dispatch@)(entry@),
        { entry_is_duplicate(entry, &dispatch) };
    let i = position(&state.entries, wanted, Ghost(duplicates(dispatch@)));
    if i < state.entries.len() {
        assert(left[i as int] == state.entries@[i as int]@);
        return Step {
            reply: EnqueueOutcome {
                enqueued: false,
                entry_id: state.entries[i].entry_id.clone(),
                subject_id,
                warning: None,
            },
            persist: dropped,
        };
    }
    let entry = DispatchQueueEntry::from_dispatch_at(dispatch, None, None, entry_id, now);
    let entry_id = entry.entry_id.clone();
    state.entries.push(entry);
    assert(state@ =~= left.push(entry@));
    Step {
        reply: EnqueueOutcome { enqueued: true, entry_id, subject_id, warning: None },
        persist: true,
    }
}

// ---------------------------------------------------- scheduled enqueue

/// Whether an entry is for the subject with the key `key`.
pub open spec fn about_subject(key: Seq<char>) -> spec_fn(EntryView) -> bool {
    |entry: EntryView| is_for_subject(entry, key)
}

/// The index of the first entry under the subject key `key`; the length of
/// the queue where there is none.
pub open spec fn collision_index(entries: Seq<EntryView>, key: Seq<char>) -> int {
    first_where(entries, about_subject(key))
}

/// What a caller is told of an entry under the same subject.
pub open spec fn collision_text(entry: EntryView, key: Seq<char>) -> Seq<char> {
    "subject "@ + key + " already has queue entry "@ + entry.entry_id + " ("@ + wire_status(
        entry.status,
    ) + ")"@
}

/// The queue after a scheduled enqueue: swept, and with a fresh entry at its
/// end.
pub open spec fn after_schedule(
    entries: Seq<EntryView>,
    dispatch: DispatchView,
    run_at: Option<Seq<char>>,
    expire_after_secs: Option<u64>,
    entry_id: Seq<char>,
    now: UtcInstant,
) -> Seq<EntryView> {
    swept(entries, now@).push(
        fresh_entry(
            dispatch,
            run_at,
            expire_after_secs,
            entry_id,
            rfc3339_text(now.secs, now.nanos),
        ),
    )
}

/// Whether `step` is what a scheduled enqueue answers.
pub open spec fn schedule_answer(
    entries: Seq<EntryView>,
    dispatch: DispatchView,
    entry_id: Seq<char>,
    now: UtcInstant,
    step: Step<EnqueueOutcome>,
) -> bool {
    let left = swept(entries, now@);
    let i = collision_index(left, dispatch.subject_key);
    &&& step.reply.enqueued
    &&& step.reply.entry_id@ == entry_id
    &&& step.reply.subject_id@ == dispatch.subject_key
    &&& opt_text(step.reply.warning) == if i < left.len() {
        Some(collision_text(left[i], dispatch.subject_key))
    } else {
        None
    }
    &&& step.persist
}

/// Appends an envelope as a fresh entry with the id `entry_id`, to run at
/// `run_at` where that is given. Nothing is deduplicated: an entry under the
/// same subject is only reported. The queue is swept first.
pub fn schedule_at(
    state: &mut DispatchQueueState,
    dispatch: SubjectDispatch,
    run_at: Option<String>,
    expire_after_secs: Option<u64>,
    entry_id: String,
    now: UtcInstant,
) -> (step: Step<EnqueueOutcome>)
    requires
        now.wf(),
    ensures
        final(state)@ == after_schedule(
            old(state)@,
            dispatch@,
            opt_text(run_at),
            expire_after_secs,
            entry_id@,
            now,
        ),
        schedule_answer(old(state)@, dispatch@, entry_id@, now, step),
{
    sweep_expired(state, now);
    let ghost left = state@;
    let subject_id = dispatch.subject_key.clone();
    let wanted = |entry: &DispatchQueueEntry| -> (same: bool)
        ensures
            same == about_subject(subject_id@)(entry@),
        { entry_is_for_subject(entry, subject_id.as_str()) };
    let i = position(&state.entries, wanted, Ghost(about_subject(subject_id@)));
    let warning = if i < state.entries.len() {
        assert(left[i as int] == state.entries@[i as int]@);
        let text = "subject ".to_owned().concat(subject_id.as_str()).concat(
            " already has queue entry ",
        ).concat(state.entries[i].entry_id.as_str()).concat(" (").concat(
            state.entries[i].status.as_wire(),
        ).concat(")");
        Some(text)
    } else {
        None
    };
    let entry = DispatchQueueEntry::from_dispatch_at(
        dispatch,
        run_at,
        expire_after_secs,
        entry_id,
        now,
    );
    let entry_id = entry.entry_id.clone();
    state.entries.push(entry);
    assert(state@ =~= left.push(entry@));
    Step {
        reply: EnqueueOutcome { enqueued: true, entry_id, subject_id, warning },
        persist: true,
    }
}

} // verus!
