//! Serving queue requests from the loaded queue.
use vstd::prelude::*;
use vstd::string::*;

use crate::clock::UtcInstant;
#[allow(unused_imports)]
use crate::clock::rfc3339_text;
use crate::dispatch_queue_state::{DispatchQueueEntryStatus, DispatchQueueState};
#[allow(unused_imports)]
use crate::dispatch_queue_state::{wire_status, EntryView};
use crate::enqueueing::EnqueueOutcome;
#[allow(unused_imports)]
use crate::enqueueing::{after_schedule, schedule_answer};
#[allow(unused_imports)]
use crate::identity::is_uuid_v4;
use crate::leasing::{check_lease, QueueLeaseError, Step};
#[allow(unused_imports)]
use crate::leasing::opt_texts;
use crate::mutations::{
    check_completion, QueueCompletionError, QueueMutationError, QueueReleasePendingError,
};
#[allow(unused_imports)]
use crate::mutations::{
    after_completion, after_mutation, completion_error_text, index_of_id, is_refused, is_terminal,
    knows, mutation_answer, mutation_error_text, release_error_text, removal_answer, MutationView,
};
use crate::queue_protocol::{QueueLeaseResponse, QueueMutationResponse, QueueReleasePendingResponse};
use crate::queue_service::QueueBackend;
#[allow(unused_imports)]
use crate::queue_service::{leased_at_some_time, released_at};
use crate::rpc::{
    failure, internal_error, invalid_params, parse_params, ErrorCode, ErrorData, Params, RpcError,
};
#[allow(unused_imports)]
use crate::rpc::{plain_failure, reports, DetailView, FailureView};
use crate::subject::SubjectDispatch;
use crate::text::decimal_text;
#[allow(unused_imports)]
use crate::text::{decimal, opt_str, opt_text};

verus! {

/// The queue to serve a request from.
pub fn require_backend(bound: Option<QueueBackend>) -> (backend: Result<QueueBackend, RpcError>)
    ensures
        match bound {
            Some(queue) => backend == Ok::<QueueBackend, RpcError>(queue),
            None => backend matches Err(error) && reports(
                error,
                ErrorCode::PluginNotInitialized,
                "animus-queue-default received a queue/* method before initialize"@,
            ),
        },
{
    match bound {
        Some(backend) => Ok(backend),
        None => Err(
            failure(
                ErrorCode::PluginNotInitialized,
                "animus-queue-default received a queue/* method before initialize".to_owned(),
            ),
        ),
    }
}

/// Accepts a request for `method` to the queue: a project root has to be
/// bound, and the parameters have to be readable, in this order.
pub fn accept<T>(bound: Option<QueueBackend>, params: Params<T>, method: &str) -> (accepted: Result<
    (QueueBackend, T),
    RpcError,
>)
    ensures
        match (bound, params) {
            (None, _) => accepted matches Err(error) && reports(
                error,
                ErrorCode::PluginNotInitialized,
                "animus-queue-default received a queue/* method before initialize"@,
            ),
            (Some(backend), Params::Given(value)) => accepted == Ok::<(QueueBackend, T), RpcError>(
                (backend, value),
            ),
            (Some(_), Params::Absent) => accepted matches Err(error) && reports(
                error,
                ErrorCode::InvalidParams,
                "missing params for "@ + method@,
            ),
            (Some(_), Params::Malformed(why)) => accepted matches Err(error) && reports(
                error,
                ErrorCode::InvalidParams,
                "invalid "@ + method@ + " params: "@ + why@,
            ),
        },
{
    match require_backend(bound) {
        Ok(backend) => match parse_params(params, method) {
            Ok(value) => Ok((backend, value)),
            Err(error) => Err(error),
        },
        Err(error) => Err(error),
    }
}

/// Serves an enqueue from the loaded queue. Nothing is deduplicated: each
/// request makes an entry, and the answer warns of one that the subject had.
pub fn handle_enqueue(
    backend: &QueueBackend,
    state: &mut DispatchQueueState,
    dispatch: SubjectDispatch,
    run_at: Option<String>,
    expire_after_secs: Option<u64>,
) -> (step: Step<EnqueueOutcome>)
    ensures
        exists|id: Seq<char>, now: UtcInstant|
            is_uuid_v4(id) && now.wf() && final(state)@ == #[trigger] after_schedule(
                old(state)@,
                dispatch@,
                opt_text(run_at),
                expire_after_secs,
                id,
                now,
            ) && schedule_answer(old(state)@, dispatch@, id, now, step),
{
    backend.enqueue_scheduled(state, dispatch, run_at, expire_after_secs)
}

/// How a refused lease is reported.
pub open spec fn lease_report(error: QueueLeaseError) -> FailureView {
    match error {
        QueueLeaseError::WorkflowIdCountMismatch { expected, actual } => FailureView {
            code: ErrorCode::LeaseWorkflowIdCountMismatch,
            message: "workflow_ids.len()="@ + decimal(actual as nat) + " did not match max="@
                + decimal(expected as nat),
            data: Some(
                DetailView::WorkflowIdCount { expected: expected as nat, actual: actual as nat },
            ),
        },
        QueueLeaseError::Backend(error) => plain_failure(
            ErrorCode::InternalError,
            "queue/lease"@ + " failed: "@ + error@,
        ),
    }
}

/// Reports a refused lease.
pub fn lease_failure(error: QueueLeaseError) -> (report: RpcError)
    ensures
        report@ == lease_report(error),
{
    match error {
        QueueLeaseError::WorkflowIdCountMismatch { expected, actual } => RpcError {
            code: ErrorCode::LeaseWorkflowIdCountMismatch,
            message: "workflow_ids.len()=".to_owned().concat(
                decimal_text(actual).as_str(),
            ).concat(" did not match max=").concat(decimal_text(expected).as_str()),
            data: Some(ErrorData::WorkflowIdCount { expected, actual }),
        },
        QueueLeaseError::Backend(error) => internal_error("queue/lease", error.as_str()),
    }
}

/// Whether a lease of `max` entries comes with as many workflow ids, if any.
pub open spec fn ids_fit(max: usize, workflow_ids: Option<Vec<String>>) -> bool {
    workflow_ids matches Some(ids) ==> ids@.len() == max
}

/// Accepts a lease. Tells whether the queue has to be loaded for it: a lease
/// of no entries leases none.
pub fn accept_lease(max: usize, workflow_ids: &Option<Vec<String>>) -> (load: Result<
    bool,
    RpcError,
>)
    ensures
        match load {
            Ok(load) => ids_fit(max, *workflow_ids) && load == (max > 0),
            Err(error) => {
                &&& !ids_fit(max, *workflow_ids)
                &&& error@ == lease_report(
                    QueueLeaseError::WorkflowIdCountMismatch {
                        expected: max,
                        actual: workflow_ids->0@.len() as usize,
                    },
                )
            },
        },
{
    match check_lease(max, workflow_ids) {
        Ok(_) => Ok(max > 0),
        Err(error) => Err(lease_failure(error)),
    }
}

/// Serves a lease from the loaded queue.
pub fn handle_lease(
    backend: &QueueBackend,
    state: &mut DispatchQueueState,
    max: usize,
    workflow_ids: Option<Vec<String>>,
    exclude_subjects: Option<Vec<String>>,
) -> (answer: Result<Step<QueueLeaseResponse>, RpcError>)
    ensures
        match answer {
            Ok(step) => {
                &&& ids_fit(max, workflow_ids)
                &&& leased_at_some_time(
                    old(state)@,
                    final(state)@,
                    max as nat,
                    workflow_ids,
                    opt_texts(exclude_subjects),
                    step,
                )
            },
            Err(error) => {
                &&& !ids_fit(max, workflow_ids)
                &&& error@ == lease_report(
                    QueueLeaseError::WorkflowIdCountMismatch {
                        expected: max,
                        actual: workflow_ids->0@.len() as usize,
                    },
                )
                &&& final(state)@ == old(state)@
            },
        },
{
    match backend.lease(state, max, workflow_ids, exclude_subjects) {
        Ok(step) => Ok(step),
        Err(error) => Err(lease_failure(error)),
    }
}

/// Reports a change that an entry's status does not admit.
pub fn mutation_failure(error: QueueMutationError) -> (report: RpcError)
    ensures
        reports(report, ErrorCode::EntryNotPending, mutation_error_text(error)),
{
    failure(ErrorCode::EntryNotPending, error.message())
}

/// Whether `answer` is how a change of the entry `id` is answered.
pub open spec fn mutation_reply(
    entries: Seq<EntryView>,
    id: Seq<char>,
    mutation: MutationView,
    answer: Result<Step<QueueMutationResponse>, RpcError>,
) -> bool {
    match answer {
        Ok(step) => mutation_answer(entries, id, mutation, Ok(step)),
        Err(error) => {
            &&& is_refused(entries, id, mutation)
            &&& reports(
                error,
                ErrorCode::EntryNotPending,
                "queue entry "@ + id + " is not in the expected pre-mutation status"@,
            )
        },
    }
}

fn mutation_result(answer: Result<Step<QueueMutationResponse>, QueueMutationError>) -> (reply:
    Result<Step<QueueMutationResponse>, RpcError>)
    ensures
        match answer {
            Ok(step) => reply == Ok::<Step<QueueMutationResponse>, RpcError>(step),
            Err(error) => reply matches Err(report) && reports(
                report,
                ErrorCode::EntryNotPending,
                mutation_error_text(error),
            ),
        },
{
    match answer {
        Ok(step) => Ok(step),
        Err(error) => Err(mutation_failure(error)),
    }
}

/// Serves a hold from the loaded queue.
pub fn handle_hold(
    backend: &QueueBackend,
    state: &mut DispatchQueueState,
    entry_id: &str,
) -> (answer: Result<Step<QueueMutationResponse>, RpcError>)
    ensures
        exists|now: UtcInstant|
            #![trigger rfc3339_text(now.secs, now.nanos)]
            now.wf() && final(state)@ == after_mutation(
                old(state)@,
                entry_id@,
                MutationView::Hold { at: rfc3339_text(now.secs, now.nanos) },
            ) && mutation_reply(
                old(state)@,
                entry_id@,
                MutationView::Hold { at: rfc3339_text(now.secs, now.nanos) },
                answer,
            ),
{
    mutation_result(backend.hold(state, entry_id))
}

/// Serves a release from the loaded queue.
pub fn handle_release(
    backend: &QueueBackend,
    state: &mut DispatchQueueState,
    entry_id: &str,
) -> (answer: Result<Step<QueueMutationResponse>, RpcError>)
    ensures
        final(state)@ == after_mutation(old(state)@, entry_id@, MutationView::Release),
        mutation_reply(old(state)@, entry_id@, MutationView::Release, answer),
{
    mutation_result(backend.release(state, entry_id))
}

/// Serves an assignment from the loaded queue.
pub fn handle_mark_assigned(
    backend: &QueueBackend,
    state: &mut DispatchQueueState,
    entry_id: &str,
    workflow_id: Option<String>,
) -> (answer: Result<Step<QueueMutationResponse>, RpcError>)
    ensures
        exists|id: Seq<char>, now: UtcInstant|
            #![trigger is_uuid_v4(id), rfc3339_text(now.secs, now.nanos)]
            is_uuid_v4(id) && now.wf() && final(state)@ == after_mutation(
                old(state)@,
                entry_id@,
                MutationView::Assign {
                    workflow_id: opt_text(workflow_id),
                    fallback: id,
                    at: rfc3339_text(now.secs, now.nanos),
                },
            ) && mutation_reply(
                old(state)@,
                entry_id@,
                MutationView::Assign {
                    workflow_id: opt_text(workflow_id),
                    fallback: id,
                    at: rfc3339_text(now.secs, now.nanos),
                },
                answer,
            ),
{
    mutation_result(backend.mark_assigned(state, entry_id, workflow_id))
}

/// Reports a refused completion frame.
pub fn completion_failure(error: QueueCompletionError) -> (report: RpcError)
    ensures
        reports(
            report,
            ErrorCode::InvalidParams,
            "queue/completion failed: "@ + completion_error_text(error),
        ),
{
    failure(
        ErrorCode::InvalidParams,
        "queue/completion failed: ".to_owned().concat(error.message().as_str()),
    )
}

/// What is reported of a completion frame with the status `status` that does
/// not end a workflow.
pub open spec fn bad_status_text(status: Seq<char>) -> Seq<char> {
    "queue/completion failed: "@ + ("invalid completion status: '"@ + status
        + "' (expected one of: completed, failed, cancelled)"@)
}

/// Accepts a completion frame: its status has to end a workflow.
pub fn accept_completion(status: &str) -> (accepted: Result<(), RpcError>)
    ensures
        match accepted {
            Ok(_) => is_terminal(status@),
            Err(error) => !is_terminal(status@) && reports(
                error,
                ErrorCode::InvalidParams,
                bad_status_text(status@),
            ),
        },
{
    match check_completion(status) {
        Ok(_) => Ok(()),
        Err(error) => Err(completion_failure(error)),
    }
}

/// Serves a completion frame from the loaded queue.
pub fn handle_completion(
    backend: &QueueBackend,
    state: &mut DispatchQueueState,
    entry_id: &str,
    status: &str,
    workflow_ref: Option<&str>,
    workflow_id: Option<&str>,
) -> (answer: Result<Step<QueueMutationResponse>, RpcError>)
    ensures
        match answer {
            Ok(step) => {
                &&& is_terminal(status@)
                &&& final(state)@ == after_completion(
                    old(state)@,
                    entry_id@,
                    opt_str(workflow_ref),
                    opt_str(workflow_id),
                )
                &&& removal_answer(old(state)@, final(state)@, step)
            },
            Err(error) => {
                &&& !is_terminal(status@)
                &&& reports(error, ErrorCode::InvalidParams, bad_status_text(status@))
                &&& final(state)@ == old(state)@
            },
        },
{
    match backend.completion(state, entry_id, status, workflow_ref, workflow_id) {
        Ok(step) => Ok(step),
        Err(error) => Err(completion_failure(error)),
    }
}

/// How a lease that was not released is reported.
pub open spec fn release_report(error: QueueReleasePendingError) -> FailureView {
    match error {
        QueueReleasePendingError::NotFound { .. } => plain_failure(
            ErrorCode::InvalidParams,
            release_error_text(error),
        ),
        QueueReleasePendingError::NotAssigned { actual_state, .. } => FailureView {
            code: ErrorCode::EntryNotAssigned,
            message: release_error_text(error),
            data: Some(DetailView::ActualState(actual_state@)),
        },
        QueueReleasePendingError::Backend(why) => plain_failure(
            ErrorCode::InternalError,
            "queue/release_pending"@ + " failed: "@ + why@,
        ),
    }
}

/// Reports a lease that was not released.
pub fn release_failure(error: QueueReleasePendingError) -> (report: RpcError)
    ensures
        report@ == release_report(error),
{
    let message = error.message();
    match error {
        QueueReleasePendingError::NotFound { .. } => invalid_params(message),
        QueueReleasePendingError::NotAssigned { actual_state, .. } => RpcError {
            code: ErrorCode::EntryNotAssigned,
            message,
            data: Some(ErrorData::ActualState(actual_state)),
        },
        QueueReleasePendingError::Backend(why) => internal_error(
            "queue/release_pending",
            why.as_str(),
        ),
    }
}

/// Serves the release of a lease from the loaded queue. The queue has to be
/// saved exactly when this succeeds.
pub fn handle_release_pending(
    backend: &QueueBackend,
    state: &mut DispatchQueueState,
    entry_id: &str,
    reason: &str,
) -> (answer: Result<QueueReleasePendingResponse, RpcError>)
    ensures
        match answer {
            Ok(response) => {
                &&& knows(old(state)@, entry_id@)
                &&& old(state)@[index_of_id(old(state)@, entry_id@)].status
                    == DispatchQueueEntryStatus::Assigned
                &&& exists|now: UtcInstant|
                    #[trigger] released_at(old(state)@, final(state)@, entry_id@, reason@, now)
                &&& response.entry_id@ == entry_id@
                &&& response.status@ == "pending"@
            },
            Err(error) => {
                let i = index_of_id(old(state)@, entry_id@);
                &&& final(state)@ == old(state)@
                &&& if knows(old(state)@, entry_id@) {
                    let actual = wire_status(old(state)@[i].status);
                    &&& old(state)@[i].status != DispatchQueueEntryStatus::Assigned
                    &&& error@ == (FailureView {
                        code: ErrorCode::EntryNotAssigned,
                        message: "entry "@ + entry_id@ + " is in state '"@ + actual
                            + "', expected 'assigned'"@,
                        data: Some(DetailView::ActualState(actual)),
                    })
                } else {
                    reports(
                        error,
                        ErrorCode::InvalidParams,
                        "entry_id not found: "@ + entry_id@,
                    )
                }
            },
        },
{
    match backend.release_pending(state, entry_id, reason) {
        Ok(response) => Ok(response),
        Err(error) => Err(release_failure(error)),
    }
}

} // verus!
