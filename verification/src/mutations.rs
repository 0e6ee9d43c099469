//! Changes to single entries, by entry id.
use vstd::prelude::*;
use vstd::string::*;

use crate::clock::UtcInstant;
#[allow(unused_imports)]
use crate::clock::rfc3339_text;
#[allow(unused_imports)]
use crate::dispatch_queue_state::{audit_rows, wire_status, AuditView, EntryView};
use crate::dispatch_queue_state::{
    DispatchQueueAuditEntry, DispatchQueueEntry, DispatchQueueEntryStatus, DispatchQueueState,
};
use crate::leasing::Step;
use crate::queue_protocol::{QueueMutationResponse, QueueReleasePendingResponse};
#[allow(unused_imports)]
use crate::seqs::{first_where, lemma_filter_same_len};
use crate::seqs::{position, retain_entries};
use crate::text::same_text;
#[allow(unused_imports)]
use crate::text::{opt_str, opt_text};

verus! {

// ------------------------------------------------------------ lookup

/// Whether an entry has the id `id`.
pub open spec fn has_id(id: Seq<char>) -> spec_fn(EntryView) -> bool {
    |entry: EntryView| entry.entry_id == id
}

/// The index of the first entry with the id `id`; the length of the queue
/// where there is none.
pub open spec fn index_of_id(entries: Seq<EntryView>, id: Seq<char>) -> int {
    first_where(entries, has_id(id))
}

/// Whether some entry has the id `id`.
pub open spec fn knows(entries: Seq<EntryView>, id: Seq<char>) -> bool {
    index_of_id(entries, id) < entries.len()
}

/// The index of the first entry with the id `id`, or the length of the queue.
pub fn find_entry(state: &DispatchQueueState, id: &str) -> (index: usize)
    ensures
        index <= state@.len(),
        index == index_of_id(state@, id@),
{
    let wanted = |entry: &DispatchQueueEntry| -> (b: bool)
        ensures
            b == has_id(id@)(entry@),
        { same_text(entry.entry_id.as_str(), id) };
    position(&state.entries, wanted, Ghost(has_id(id@)))
}

// ------------------------------------------------- status transitions

/// A change of one entry's status.
#[derive(Debug)]
pub enum EntryMutation {
    /// Hold a pending entry.
    Hold {
        /// RFC 3339 hold timestamp.
        at: String,
    },
    /// Return a held entry to pending.
    Release,
    /// Assign a pending entry.
    Assign {
        /// Workflow id to attach.
        workflow_id: Option<String>,
        /// Workflow id to attach when none is given and none is attached.
        fallback: String,
        /// RFC 3339 assignment timestamp.
        at: String,
    },
}

/// What an [`EntryMutation`] holds.
pub enum MutationView {
    Hold { at: Seq<char> },
    Release,
    Assign { workflow_id: Option<Seq<char>>, fallback: Seq<char>, at: Seq<char> },
}

impl View for EntryMutation {
    type V = MutationView;

    open spec fn view(&self) -> MutationView {
        match self {
            EntryMutation::Hold { at } => MutationView::Hold { at: at@ },
            EntryMutation::Release => MutationView::Release,
            EntryMutation::Assign { workflow_id, fallback, at } => MutationView::Assign {
                workflow_id: opt_text(*workflow_id),
                fallback: fallback@,
                at: at@,
            },
        }
    }
}

/// Why an entry was not changed.
#[derive(Debug)]
pub enum QueueMutationError {
    /// The entry is not in the status from which the change starts.
    NotPending {
        /// The entry.
        entry_id: String,
    },
}

/// What happened, in words.
pub open spec fn mutation_error_text(error: QueueMutationError) -> Seq<char> {
    match error {
        QueueMutationError::NotPending { entry_id } => "queue entry "@ + entry_id@
            + " is not in the expected pre-mutation status"@,
    }
}

impl QueueMutationError {
    /// What happened, in words.
    pub fn message(&self) -> (text: String)
        ensures
            text@ == mutation_error_text(*self),
    {
        match self {
            QueueMutationError::NotPending { entry_id } => {
                "queue entry ".to_owned().concat(entry_id.as_str()).concat(
                    " is not in the expected pre-mutation status",
                )
            },
        }
    }
}

/// The status from which a change starts.
pub open spec fn starts_from(mutation: MutationView) -> DispatchQueueEntryStatus {
    match mutation {
        MutationView::Hold { .. } => DispatchQueueEntryStatus::Pending,
        MutationView::Release => DispatchQueueEntryStatus::Held,
        MutationView::Assign { .. } => DispatchQueueEntryStatus::Pending,
    }
}

/// The status to which a change leads.
pub open spec fn leads_to(mutation: MutationView) -> DispatchQueueEntryStatus {
    match mutation {
        MutationView::Hold { .. } => DispatchQueueEntryStatus::Held,
        MutationView::Release => DispatchQueueEntryStatus::Pending,
        MutationView::Assign { .. } => DispatchQueueEntryStatus::Assigned,
    }
}

/// An entry once it is changed.
pub open spec fn mutated(entry: EntryView, mutation: MutationView) -> EntryView {
    match mutation {
        MutationView::Hold { at } => EntryView {
            status: DispatchQueueEntryStatus::Held,
            held_at: Some(at),
            ..entry
        },
        MutationView::Release => EntryView {
            status: DispatchQueueEntryStatus::Pending,
            held_at: None,
            ..entry
        },
        MutationView::Assign { workflow_id, fallback, at } => EntryView {
            status: DispatchQueueEntryStatus::Assigned,
            workflow_id: if workflow_id is Some {
                workflow_id
            } else if entry.workflow_id is Some {
                entry.workflow_id
            } else {
                Some(fallback)
            },
            assigned_at: Some(at),
            ..entry
        },
    }
}

/// Whether a change takes place: the entry exists and is in the status from
/// which the change starts.
pub open spec fn takes_place(
    entries: Seq<EntryView>,
    id: Seq<char>,
    mutation: MutationView,
) -> bool {
    knows(entries, id) && entries[index_of_id(entries, id)].status == starts_from(mutation)
}

/// Whether a change is refused: the entry exists, but neither in the status
/// from which the change starts nor in that to which it leads.
pub open spec fn is_refused(
    entries: Seq<EntryView>,
    id: Seq<char>,
    mutation: MutationView,
) -> bool {
    knows(entries, id) && entries[index_of_id(entries, id)].status != starts_from(mutation)
        && entries[index_of_id(entries, id)].status != leads_to(mutation)
}

/// The queue after a change of the entry `id`.
pub open spec fn after_mutation(
    entries: Seq<EntryView>,
    id: Seq<char>,
    mutation: MutationView,
) -> Seq<EntryView> {
    if takes_place(entries, id, mutation) {
        let i = index_of_id(entries, id);
        entries.update(i, mutated(entries[i], mutation))
    } else {
        entries
    }
}

/// Whether `step` is what a change of the entry `id` answers.
pub open spec fn mutation_answer(
    entries: Seq<EntryView>,
    id: Seq<char>,
    mutation: MutationView,
    answer: Result<Step<QueueMutationResponse>, QueueMutationError>,
) -> bool {
    match answer {
        Ok(step) => {
            &&& !is_refused(entries, id, mutation)
            &&& step.reply.changed == takes_place(entries, id, mutation)
            &&& step.reply.not_found == !knows(entries, id)
            &&& step.persist == step.reply.changed
        },
        Err(QueueMutationError::NotPending { entry_id }) => {
            &&& is_refused(entries, id, mutation)
            &&& entry_id@ == id
        },
    }
}

/// Changes one entry. An entry already where the change leads stays as it is.
pub fn mutate_entry(
    state: &mut DispatchQueueState,
    entry_id: &str,
    mutation: EntryMutation,
) -> (answer: Result<Step<QueueMutationResponse>, QueueMutationError>)
    ensures
        final(state)@ == after_mutation(old(state)@, entry_id@, mutation@),
        mutation_answer(old(state)@, entry_id@, mutation@, answer),
{
    let ghost s = state@;
    let ghost m = mutation@;
    let i = find_entry(state, entry_id);
    if i == state.entries.len() {
        return Ok(
            Step {
                reply: QueueMutationResponse { changed: false, not_found: true },
                persist: false,
            },
        );
    }
    assert(state.entries@[i as int]@ == s[i as int]);
    let status = state.entries[i].status;
    let (from, to) = match &mutation {
        EntryMutation::Hold { .. } => (
            DispatchQueueEntryStatus::Pending,
            DispatchQueueEntryStatus::Held,
        ),
        EntryMutation::Release => (
            DispatchQueueEntryStatus::Held,
            DispatchQueueEntryStatus::Pending,
        ),
        EntryMutation::Assign { .. } => (
            DispatchQueueEntryStatus::Pending,
            DispatchQueueEntryStatus::Assigned,
        ),
    };
    if status == to {
        return Ok(
            Step {
                reply: QueueMutationResponse { changed: false, not_found: false },
                persist: false,
            },
        );
    }
    if status != from {
        return Err(QueueMutationError::NotPending { entry_id: entry_id.to_owned() });
    }
    match mutation {
        EntryMutation::Hold { at } => {
            state.entries[i].held_at = Some(at);
        },
        EntryMutation::Release => {
            state.entries[i].held_at = None;
        },
        EntryMutation::Assign { workflow_id, fallback, at } => {
            match workflow_id {
                Some(id) => {
                    state.entries[i].workflow_id = Some(id);
                },
                None => {
                    if state.entries[i].workflow_id.is_none() {
                        state.entries[i].workflow_id = Some(fallback);
                    }
                },
            }
            state.entries[i].assigned_at = Some(at);
        },
    }
    state.entries[i].status = to;
    assert(state.entries@[i as int]@ == mutated(s[i as int], m));
    assert(state@ =~= s.update(i as int, mutated(s[i as int], m)));
    Ok(
        Step {
            reply: QueueMutationResponse { changed: true, not_found: false },
            persist: true,
        },
    )
}

/// Holds the pending entry `entry_id` at `now`.
pub fn hold_at(state: &mut DispatchQueueState, entry_id: &str, now: UtcInstant) -> (answer: Result<
    Step<QueueMutationResponse>,
    QueueMutationError,
>)
    requires
        now.wf(),
    ensures
        final(state)@ == after_mutation(
            old(state)@,
            entry_id@,
            MutationView::Hold { at: rfc3339_text(now.secs, now.nanos) },
        ),
        mutation_answer(
            old(state)@,
            entry_id@,
            MutationView::Hold { at: rfc3339_text(now.secs, now.nanos) },
            answer,
        ),
{
    mutate_entry(state, entry_id, EntryMutation::Hold { at: now.to_rfc3339() })
}

/// Assigns the pending entry `entry_id` at `now`, to `workflow_id` if there is
/// one, else to the workflow already attached, else to `fallback`.
pub fn mark_assigned_at(
    state: &mut DispatchQueueState,
    entry_id: &str,
    workflow_id: Option<String>,
    fallback: String,
    now: UtcInstant,
) -> (answer: Result<Step<QueueMutationResponse>, QueueMutationError>)
    requires
        now.wf(),
    ensures
        final(state)@ == after_mutation(
            old(state)@,
            entry_id@,
            MutationView::Assign {
                workflow_id: opt_text(workflow_id),
                fallback: fallback@,
                at: rfc3339_text(now.secs, now.nanos),
            },
        ),
        mutation_answer(
            old(state)@,
            entry_id@,
            MutationView::Assign {
                workflow_id: opt_text(workflow_id),
                fallback: fallback@,
                at: rfc3339_text(now.secs, now.nanos),
            },
            answer,
        ),
{
    mutate_entry(
        state,
        entry_id,
        EntryMutation::Assign { workflow_id, fallback, at: now.to_rfc3339() },
    )
}

// ----------------------------------------------------------- removal

/// The entries that stay when the entries with the id `id` are dropped.
pub open spec fn other_than(id: Seq<char>) -> spec_fn(EntryView) -> bool {
    |entry: EntryView| entry.entry_id != id
}

/// The queue without the entries of the id `id`.
pub open spec fn without(entries: Seq<EntryView>, id: Seq<char>) -> Seq<EntryView> {
    entries.filter(other_than(id))
}

/// Whether `step` is what a removal that leads from `before` to `after`
/// answers: changed when it removed something, else not found.
pub open spec fn removal_answer(
    before: Seq<EntryView>,
    after: Seq<EntryView>,
    step: Step<QueueMutationResponse>,
) -> bool {
    &&& step.reply.changed == (after != before)
    &&& step.reply.not_found == (after == before)
    &&& step.persist == step.reply.changed
}

fn removal_step(removed: bool) -> (step: Step<QueueMutationResponse>)
    ensures
        step.reply.changed == removed,
        step.reply.not_found == !removed,
        step.persist == removed,
{
    Step {
        reply: QueueMutationResponse { changed: removed, not_found: !removed },
        persist: removed,
    }
}

/// Drops the entries with the id `entry_id`, whatever their status.
pub fn drop_from(state: &mut DispatchQueueState, entry_id: &str) -> (step: Step<
    QueueMutationResponse,
>)
    ensures
        final(state)@ == without(old(state)@, entry_id@),
        removal_answer(old(state)@, final(state)@, step),
{
    let ghost s = state@;
    let before = state.entries.len();
    let keep = |entry: &DispatchQueueEntry| -> (kept: bool)
        ensures
            kept == other_than(entry_id@)(entry@),
        { !same_text(entry.entry_id.as_str(), entry_id) };
    retain_entries(&mut state.entries, keep, Ghost(other_than(entry_id@)));
    proof {
        s.lemma_filter_len(other_than(entry_id@));
        assert(state@.len() == state.entries@.len());
        if state@.len() == s.len() {
            lemma_filter_same_len(s, other_than(entry_id@));
        }
    }
    removal_step(state.entries.len() < before)
}

/// Whether a completion frame is about `entry`: it names the entry, the entry
/// is assigned, and neither workflow reference nor workflow id contradicts
/// what the frame says of them.
pub open spec fn completes(
    entry: EntryView,
    id: Seq<char>,
    workflow_ref: Option<Seq<char>>,
    workflow_id: Option<Seq<char>>,
) -> bool {
    &&& entry.entry_id == id
    &&& entry.status == DispatchQueueEntryStatus::Assigned
    &&& workflow_ref is Some && entry.dispatch is Some ==> entry.dispatch->0.workflow_ref
        == workflow_ref->0
    &&& workflow_id is Some && entry.workflow_id is Some ==> entry.workflow_id == workflow_id
}

/// The entries that stay after a completion frame.
pub open spec fn uncompleted(
    id: Seq<char>,
    workflow_ref: Option<Seq<char>>,
    workflow_id: Option<Seq<char>>,
) -> spec_fn(EntryView) -> bool {
    |entry: EntryView| !completes(entry, id, workflow_ref, workflow_id)
}

/// The queue after a completion frame.
pub open spec fn after_completion(
    entries: Seq<EntryView>,
    id: Seq<char>,
    workflow_ref: Option<Seq<char>>,
    workflow_id: Option<Seq<char>>,
) -> Seq<EntryView> {
    entries.filter(uncompleted(id, workflow_ref, workflow_id))
}

/// Whether `status` ends a workflow.
pub open spec fn is_terminal(status: Seq<char>) -> bool {
    status == "completed"@ || status == "failed"@ || status == "cancelled"@
}

/// Why a completion frame was refused.
#[derive(Debug)]
pub enum QueueCompletionError {
    /// The status does not end a workflow.
    InvalidStatus {
        /// The status in the frame.
        status: String,
    },
}

/// What happened, in words.
pub open spec fn completion_error_text(error: QueueCompletionError) -> Seq<char> {
    match error {
        QueueCompletionError::InvalidStatus { status } => "invalid completion status: '"@ + status@
            + "' (expected one of: completed, failed, cancelled)"@,
    }
}

impl QueueCompletionError {
    /// What happened, in words.
    pub fn message(&self) -> (text: String)
        ensures
            text@ == completion_error_text(*self),
    {
        match self {
            QueueCompletionError::InvalidStatus { status } => {
                "invalid completion status: '".to_owned().concat(status.as_str()).concat(
                    "' (expected one of: completed, failed, cancelled)",
                )
            },
        }
    }
}

/// Refuses a completion frame whose status does not end a workflow.
pub fn check_completion(status: &str) -> (checked: Result<(), QueueCompletionError>)
    ensures
        match checked {
            Ok(_) => is_terminal(status@),
            Err(QueueCompletionError::InvalidStatus { status: refused }) => !is_terminal(status@)
                && refused@ == status@,
        },
{
    if same_text(status, "completed") || same_text(status, "failed") || same_text(
        status,
        "cancelled",
    ) {
        Ok(())
    } else {
        Err(QueueCompletionError::InvalidStatus { status: status.to_owned() })
    }
}

fn entry_completes(
    entry: &DispatchQueueEntry,
    entry_id: &str,
    workflow_ref: Option<&str>,
    workflow_id: Option<&str>,
) -> (completed: bool)
    ensures
        completed == completes(entry@, entry_id@, opt_str(workflow_ref), opt_str(workflow_id)),
{
    if !same_text(entry.entry_id.as_str(), entry_id) {
        return false;
    }
    if entry.status != DispatchQueueEntryStatus::Assigned {
        return false;
    }
    match (workflow_ref, &entry.dispatch) {
        (Some(workflow_ref), Some(dispatch)) => {
            if !same_text(dispatch.workflow_ref.as_str(), workflow_ref) {
                return false;
            }
        },
        _ => {},
    }
    match (workflow_id, &entry.workflow_id) {
        (Some(workflow_id), Some(attached)) => {
            if !same_text(attached.as_str(), workflow_id) {
                return false;
            }
        },
        _ => {},
    }
    true
}

/// Removes the entries that a completion frame is about.
pub fn complete(
    state: &mut DispatchQueueState,
    entry_id: &str,
    status: &str,
    workflow_ref: Option<&str>,
    workflow_id: Option<&str>,
) -> (answer: Result<Step<QueueMutationResponse>, QueueCompletionError>)
    ensures
        match answer {
            Ok(step) => {
                &&& is_terminal(status@)
                &&& final(state)@ == after_completion(
                    old(state)@,
                    entry_id@,
                    opt_str(workflow_ref),
                    opt_str(workflow_id),
                )
                &&& removal_answer(old(state)@, final(state)@, step)
            },
            Err(QueueCompletionError::InvalidStatus { status: refused }) => {
                &&& !is_terminal(status@)
                &&& refused@ == status@
                &&& final(state)@ == old(state)@
            },
        },
{
    match check_completion(status) {
        Ok(_) => {},
        Err(error) => {
            return Err(error);
        },
    }
    let ghost s = state@;
    let ghost p = uncompleted(entry_id@, opt_str(workflow_ref), opt_str(workflow_id));
    let before = state.entries.len();
    let keep = |entry: &DispatchQueueEntry| -> (kept: bool)
        ensures
            kept == uncompleted(entry_id@, opt_str(workflow_ref), opt_str(workflow_id))(entry@),
        { !entry_completes(entry, entry_id, workflow_ref, workflow_id) };
    retain_entries(&mut state.entries, keep, Ghost(p));
    proof {
        s.lemma_filter_len(p);
        assert(state@.len() == state.entries@.len());
        if state@.len() == s.len() {
            lemma_filter_same_len(s, p);
        }
    }
    Ok(removal_step(state.entries.len() < before))
}

// --------------------------------------------------- release of a lease

/// Why a lease was not released.
#[derive(Debug)]
pub enum QueueReleasePendingError {
    /// There is no such entry.
    NotFound {
        /// The id in the request.
        entry_id: String,
    },
    /// The entry is not assigned.
    NotAssigned {
        /// The id in the request.
        entry_id: String,
        /// Its status (wire form).
        actual_state: String,
    },
    /// The queue could not be read or written.
    Backend(String),
}

/// What happened, in words.
pub open spec fn release_error_text(error: QueueReleasePendingError) -> Seq<char> {
    match error {
        QueueReleasePendingError::NotFound { entry_id } => "entry_id not found: "@ + entry_id@,
        QueueReleasePendingError::NotAssigned { entry_id, actual_state } => "entry "@ + entry_id@
            + " is in state '"@ + actual_state@ + "', expected 'assigned'"@,
        QueueReleasePendingError::Backend(error) => error@,
    }
}

impl QueueReleasePendingError {
    /// What happened, in words.
    pub fn message(&self) -> (text: String)
        ensures
            text@ == release_error_text(*self),
    {
        match self {
            QueueReleasePendingError::NotFound { entry_id } => {
                "entry_id not found: ".to_owned().concat(entry_id.as_str())
            },
            QueueReleasePendingError::NotAssigned { entry_id, actual_state } => {
                "entry ".to_owned().concat(entry_id.as_str()).concat(" is in state '").concat(
                    actual_state.as_str(),
                ).concat("', expected 'assigned'")
            },
            QueueReleasePendingError::Backend(error) => error.clone(),
        }
    }
}

/// The audit row of a released lease.
pub open spec fn release_row(at: Seq<char>, reason: Seq<char>) -> AuditView {
    AuditView {
        at,
        method: "queue/release_pending"@,
        from_status: "assigned"@,
        to_status: "pending"@,
        reason,
    }
}

/// An entry once its lease is released.
pub open spec fn unassigned(entry: EntryView, at: Seq<char>, reason: Seq<char>) -> EntryView {
    EntryView {
        status: DispatchQueueEntryStatus::Pending,
        assigned_at: None,
        workflow_id: None,
        audit_log: entry.audit_log.push(release_row(at, reason)),
        ..entry
    }
}

/// Returns the assigned entry `entry_id` to pending at `now` and records why.
pub fn release_pending_at(
    state: &mut DispatchQueueState,
    entry_id: &str,
    reason: &str,
    now: UtcInstant,
) -> (answer: Result<QueueReleasePendingResponse, QueueReleasePendingError>)
    requires
        now.wf(),
    ensures
        match answer {
            Ok(response) => {
                let i = index_of_id(old(state)@, entry_id@);
                &&& knows(old(state)@, entry_id@)
                &&& old(state)@[i].status == DispatchQueueEntryStatus::Assigned
                &&& final(state)@ == old(state)@.update(
                    i,
                    unassigned(old(state)@[i], rfc3339_text(now.secs, now.nanos), reason@),
                )
                &&& response.entry_id@ == entry_id@
                &&& response.status@ == "pending"@
            },
            Err(QueueReleasePendingError::NotFound { entry_id: asked }) => {
                &&& !knows(old(state)@, entry_id@)
                &&& asked@ == entry_id@
                &&& final(state)@ == old(state)@
            },
            Err(QueueReleasePendingError::NotAssigned { entry_id: asked, actual_state }) => {
                let i = index_of_id(old(state)@, entry_id@);
                &&& knows(old(state)@, entry_id@)
                &&& old(state)@[i].status != DispatchQueueEntryStatus::Assigned
                &&& asked@ == entry_id@
                &&& actual_state@ == wire_status(old(state)@[i].status)
                &&& final(state)@ == old(state)@
            },
            Err(QueueReleasePendingError::Backend(_)) => false,
        },
{
    let ghost s = state@;
    let i = find_entry(state, entry_id);
    if i == state.entries.len() {
        return Err(QueueReleasePendingError::NotFound { entry_id: entry_id.to_owned() });
    }
    assert(state.entries@[i as int]@ == s[i as int]);
    let status = state.entries[i].status;
    if status != DispatchQueueEntryStatus::Assigned {
        return Err(
            QueueReleasePendingError::NotAssigned {
                entry_id: entry_id.to_owned(),
                actual_state: status.as_wire().to_owned(),
            },
        );
    }
    let row = DispatchQueueAuditEntry {
        at: now.to_rfc3339(),
        method: "queue/release_pending".to_owned(),
        from_status: status.as_wire().to_owned(),
        to_status: "pending".to_owned(),
        reason: reason.to_owned(),
    };
    let ghost rows = state.entries@[i as int].audit_log@;
    assert(row@ == release_row(rfc3339_text(now.secs, now.nanos), reason@));
    state.entries[i].status = DispatchQueueEntryStatus::Pending;
    state.entries[i].assigned_at = None;
    state.entries[i].workflow_id = None;
    state.entries[i].audit_log.push(row);
    proof {
        let changed = unassigned(s[i as int], rfc3339_text(now.secs, now.nanos), reason@);
        assert(audit_rows(rows.push(row)) =~= audit_rows(rows).push(row@));
        assert(state.entries@[i as int]@ == changed);
        assert(state@ =~= s.update(i as int, changed));
    }
    Ok(
        QueueReleasePendingResponse {
            entry_id: entry_id.to_owned(),
            status: "pending".to_owned(),
        },
    )
}

} // verus!
