//! The queue operations, bound to a project root.
//!
//! Each operation works on the loaded queue state and tells whether it has to
//! be saved. An operation that needs the time or a new id takes it from the
//! clock or the id generator; what it does for a given time and id is stated
//! by the function of the same name that takes them as arguments.
use std::path::{Path, PathBuf};
use vstd::prelude::*;

use crate::clock::utc_now;
use crate::clock::UtcInstant;
#[allow(unused_imports)]
use crate::clock::{opt_instant, rfc3339_text};
use crate::dispatch_queue_state::DispatchQueueState;
#[allow(unused_imports)]
use crate::dispatch_queue_state::{wire_status, DispatchQueueEntryStatus, EntryView};
use crate::dispatch_queue_store::same_path;
#[allow(unused_imports)]
use crate::dispatch_queue_store::{path_buf_parts, path_buf_text, path_parts, path_text};
use crate::enqueueing::{enqueue_at, schedule_at, EnqueueOutcome};
#[allow(unused_imports)]
use crate::enqueueing::{after_enqueue, after_schedule, enqueue_answer, schedule_answer};
use crate::identity::fresh_uuid;
#[allow(unused_imports)]
use crate::identity::is_uuid_v4;
use crate::leasing::{check_lease, lease_at, QueueLeaseError, Step};
#[allow(unused_imports)]
use crate::leasing::{after_lease, lease_reply, opt_texts, swept};
use crate::listing::{list_at, next_deadline_at, stats_from_state};
#[allow(unused_imports)]
use crate::listing::{counts, has_status_in, is_next_deadline, page, shown, start};
use crate::mutations::{
    complete, drop_from, hold_at, mark_assigned_at, mutate_entry, release_pending_at,
    EntryMutation, QueueCompletionError, QueueMutationError, QueueReleasePendingError,
};
#[allow(unused_imports)]
use crate::mutations::{
    after_completion, after_mutation, index_of_id, is_terminal, knows, mutation_answer,
    removal_answer, unassigned, without, MutationView,
};
use crate::ordering::reorder_entries;
#[allow(unused_imports)]
use crate::ordering::{after_reorder, moved_count, named_first};
use crate::queue_protocol::{
    QueueLeaseResponse, QueueListResponse, QueueMutationResponse, QueueReleasePendingResponse,
    QueueReorderResponse, QueueStats,
};
#[allow(unused_imports)]
use crate::queue_protocol::wire_views;
use crate::subject::SubjectDispatch;
#[allow(unused_imports)]
use crate::text::{opt_str, opt_text, texts};

verus! {

/// The queue of a single project root.
#[derive(Debug)]
pub struct QueueBackend {
    project_root: PathBuf,
}

impl Clone for QueueBackend {
    fn clone(&self) -> (copy: Self)
        ensures
            copy.root() == self.root(),
            copy.root_text() == self.root_text(),
    {
        QueueBackend { project_root: self.project_root.clone() }
    }
}

/// Whether every text of a list is a version 4 UUID.
pub open spec fn all_uuids(ids: Seq<Seq<char>>) -> bool {
    forall|k: int| 0 <= k < ids.len() ==> is_uuid_v4(#[trigger] ids[k])
}

/// Whether `ids` are the workflow ids that a lease uses: the given ones, or
/// UUIDs where none are given.
pub open spec fn are_workflow_ids(ids: Seq<Seq<char>>, given: Option<Vec<String>>) -> bool {
    match given {
        Some(given) => ids == texts(given@),
        None => all_uuids(ids),
    }
}

/// Whether a lease that succeeded went from `before` to `after` at `now`,
/// with the workflow ids `ids`.
pub open spec fn leased_with(
    before: Seq<EntryView>,
    after: Seq<EntryView>,
    max: nat,
    ids: Seq<Seq<char>>,
    exclude: Option<Seq<Seq<char>>>,
    now: UtcInstant,
    step: Step<QueueLeaseResponse>,
) -> bool {
    &&& now.wf()
    &&& step.reply.leased@.len() <= ids.len()
    &&& after == after_lease(before, max, ids, exclude, now)
    &&& wire_views(step.reply.leased@) == lease_reply(before, max, ids, exclude, now)
    &&& step.persist == (max > 0 && (swept(before, now@) != before || step.reply.leased@.len()
        > 0))
}

/// Whether a lease that succeeded went from `before` to `after` at some
/// instant, with the given workflow ids or with UUIDs.
pub open spec fn leased_at_some_time(
    before: Seq<EntryView>,
    after: Seq<EntryView>,
    max: nat,
    given: Option<Vec<String>>,
    exclude: Option<Seq<Seq<char>>>,
    step: Step<QueueLeaseResponse>,
) -> bool {
    exists|ids: Seq<Seq<char>>, now: UtcInstant|
        are_workflow_ids(ids, given) && #[trigger] leased_with(
            before,
            after,
            max,
            ids,
            exclude,
            now,
            step,
        )
}

/// Whether a listing shows the queue as it is at `now`.
pub open spec fn listed_at(
    entries: Seq<EntryView>,
    statuses: Seq<Seq<char>>,
    limit: Option<usize>,
    offset: Option<usize>,
    now: UtcInstant,
    response: QueueListResponse,
) -> bool {
    &&& now.wf()
    &&& wire_views(response.entries@) == shown(
        page(entries.filter(has_status_in(statuses)), start(offset), limit),
        rfc3339_text(now.secs, now.nanos),
    )
    &&& counts(response.stats, entries, now@)
}

/// Whether a lease was released at `now`.
pub open spec fn released_at(
    before: Seq<EntryView>,
    after: Seq<EntryView>,
    id: Seq<char>,
    reason: Seq<char>,
    now: UtcInstant,
) -> bool {
    let i = index_of_id(before, id);
    &&& now.wf()
    &&& after == before.update(
        i,
        unassigned(before[i], rfc3339_text(now.secs, now.nanos), reason),
    )
}

fn fresh_uuids(n: usize) -> (ids: Vec<String>)
    ensures
        ids@.len() == n,
        all_uuids(texts(ids@)),
{
    let mut ids: Vec<String> = Vec::new();
    while ids.len() < n
        invariant
            ids@.len() <= n,
            all_uuids(texts(ids@)),
        decreases n - ids.len(),
    {
        let ghost before = texts(ids@);
        let id = fresh_uuid();
        ids.push(id);
        proof {
            let after = texts(ids@);
            assert(after =~= before.push(id@));
        }
    }
    ids
}

impl QueueBackend {
    /// The components of the bound project root.
    pub closed spec fn root(&self) -> Seq<Seq<char>> {
        path_buf_parts(self.project_root)
    }

    /// The text of the bound project root.
    pub closed spec fn root_text(&self) -> Option<Seq<char>> {
        path_buf_text(self.project_root)
    }

    /// Binds the queue to a project root.
    pub fn new(project_root: PathBuf) -> (backend: Self)
        ensures
            backend.root() == path_buf_parts(project_root),
            backend.root_text() == path_buf_text(project_root),
    {
        QueueBackend { project_root }
    }

    /// Bound project root.
    pub fn project_root(&self) -> (root: &Path)
        ensures
            path_parts(root) == self.root(),
            path_text(root) == self.root_text(),
    {
        self.project_root.as_path()
    }

    /// Whether `root` is the bound project root, however it is spelled.
    pub fn is_bound_to(&self, root: &PathBuf) -> (bound: bool)
        ensures
            bound == (path_buf_parts(*root) == self.root()),
    {
        same_path(self.project_root.as_path(), root.as_path())
    }

    /// Appends a dispatch to the queue. Idempotent on a duplicate: same
    /// subject key and same workflow.
    pub fn enqueue(&self, state: &mut DispatchQueueState, dispatch: SubjectDispatch) -> (step: Step<
        EnqueueOutcome,
    >)
        ensures
            exists|id: Seq<char>, now: UtcInstant|
                is_uuid_v4(id) && now.wf() && final(state)@ == #[trigger] after_enqueue(
                    old(state)@,
                    dispatch@,
                    id,
                    now,
                ) && enqueue_answer(old(state)@, dispatch@, id, now, step),
    {
        let id = fresh_uuid();
        let now = utc_now();
        let ghost id_text = id@;
        let ghost before = state@;
        let step = enqueue_at(state, dispatch, id, now);
        assert(state@ == after_enqueue(before, dispatch@, id_text, now));
        step
    }

    /// Appends a dispatch to the queue, to run at `run_at` where that is
    /// given. Never deduplicated: an entry under the same subject is reported
    /// in the outcome's `warning`.
    pub fn enqueue_scheduled(
        &self,
        state: &mut DispatchQueueState,
        dispatch: SubjectDispatch,
        run_at: Option<String>,
        expire_after_secs: Option<u64>,
    ) -> (step: Step<EnqueueOutcome>)
        ensures
            exists|id: Seq<char>, now: UtcInstant|
                is_uuid_v4(id) && now.wf() && final(state)@ == #[trigger] after_schedule(
                    old(state)@,
                    dispatch@,
                    opt_text(run_at),
                    expire_after_secs,
                    id,
                    now,
                ) && schedule_answer(old(state)@, dispatch@, id, now, step),
    {
        let id = fresh_uuid();
        let now = utc_now();
        let ghost id_text = id@;
        let ghost before = state@;
        let step = schedule_at(state, dispatch, run_at, expire_after_secs, id, now);
        assert(state@ == after_schedule(
            before,
            dispatch@,
            opt_text(run_at),
            expire_after_secs,
            id_text,
            now,
        ));
        step
    }

    /// Paginated, filtered view of the queue, with counts.
    pub fn list(
        &self,
        state: &DispatchQueueState,
        status_filter: &[String],
        limit: Option<usize>,
        offset: Option<usize>,
    ) -> (response: QueueListResponse)
        ensures
            response.total == state@.filter(has_status_in(texts(status_filter@))).len(),
            exists|now: UtcInstant|
                #[trigger] listed_at(
                    state@,
                    texts(status_filter@),
                    limit,
                    offset,
                    now,
                    response,
                ),
    {
        let now = utc_now();
        let response = list_at(state, status_filter, limit, offset, now);
        assert(listed_at(state@, texts(status_filter@), limit, offset, now, response));
        response
    }

    /// Aggregate counts.
    pub fn stats(&self, state: &DispatchQueueState) -> (stats: QueueStats)
        ensures
            exists|now: UtcInstant| now.wf() && #[trigger] counts(stats, state@, now@),
    {
        let now = utc_now();
        stats_from_state(state, now)
    }

    /// The earliest future `run_at` among the pending entries.
    pub fn next_deadline(&self, state: &DispatchQueueState) -> (deadline: Option<UtcInstant>)
        ensures
            exists|now: UtcInstant|
                now.wf() && #[trigger] is_next_deadline(state@, now@, opt_instant(deadline)),
            deadline matches Some(t) ==> t.wf(),
    {
        let now = utc_now();
        next_deadline_at(state, now)
    }

    /// Atomic dispatch: claims up to `max` pending entries in queue order,
    /// attaches workflow ids and assigns them.
    ///
    /// The workflow ids, where given, must be `max`; else new ones are made.
    /// Entries for a subject in `exclude_subjects` are passed over, and with
    /// such a list no two entries for one subject are leased together.
    pub fn lease(
        &self,
        state: &mut DispatchQueueState,
        max: usize,
        workflow_ids: Option<Vec<String>>,
        exclude_subjects: Option<Vec<String>>,
    ) -> (answer: Result<Step<QueueLeaseResponse>, QueueLeaseError>)
        ensures
            match answer {
                Ok(step) => {
                    &&& workflow_ids matches Some(ids) ==> ids@.len() == max
                    &&& leased_at_some_time(
                        old(state)@,
                        final(state)@,
                        max as nat,
                        workflow_ids,
                        opt_texts(exclude_subjects),
                        step,
                    )
                },
                Err(QueueLeaseError::WorkflowIdCountMismatch { expected, actual }) => {
                    &&& workflow_ids matches Some(ids) && ids@.len() == actual
                    &&& expected == max
                    &&& actual != max
                    &&& final(state)@ == old(state)@
                },
                Err(QueueLeaseError::Backend(_)) => false,
            },
    {
        match check_lease(max, &workflow_ids) {
            Ok(_) => {},
            Err(error) => {
                return Err(error);
            },
        }
        let ghost before = state@;
        let ids = match workflow_ids {
            Some(ids) => ids,
            None => {
                let room = if max < state.entries.len() {
                    max
                } else {
                    state.entries.len()
                };
                fresh_uuids(room)
            },
        };
        assert(are_workflow_ids(texts(ids@), workflow_ids));
        let now = utc_now();
        let step = lease_at(state, max, &ids, &exclude_subjects, now);
        assert(leased_with(
            before,
            state@,
            max as nat,
            texts(ids@),
            opt_texts(exclude_subjects),
            now,
            step,
        ));
        Ok(step)
    }

    /// Holds a pending entry. Idempotent on a held one.
    pub fn hold(&self, state: &mut DispatchQueueState, entry_id: &str) -> (answer: Result<
        Step<QueueMutationResponse>,
        QueueMutationError,
    >)
        ensures
            exists|now: UtcInstant|
                #![trigger rfc3339_text(now.secs, now.nanos)]
                now.wf() && final(state)@ == after_mutation(
                    old(state)@,
                    entry_id@,
                    MutationView::Hold { at: rfc3339_text(now.secs, now.nanos) },
                ) && mutation_answer(
                    old(state)@,
                    entry_id@,
                    MutationView::Hold { at: rfc3339_text(now.secs, now.nanos) },
                    answer,
                ),
    {
        let now = utc_now();
        hold_at(state, entry_id, now)
    }

    /// Releases a held entry back to pending. Idempotent on a pending one.
    pub fn release(&self, state: &mut DispatchQueueState, entry_id: &str) -> (answer: Result<
        Step<QueueMutationResponse>,
        QueueMutationError,
    >)
        ensures
            final(state)@ == after_mutation(old(state)@, entry_id@, MutationView::Release),
            mutation_answer(old(state)@, entry_id@, MutationView::Release, answer),
    {
        mutate_entry(state, entry_id, EntryMutation::Release)
    }

    /// Drops an entry from the queue.
    pub fn drop_entry(&self, state: &mut DispatchQueueState, entry_id: &str) -> (step: Step<
        QueueMutationResponse,
    >)
        ensures
            final(state)@ == without(old(state)@, entry_id@),
            removal_answer(old(state)@, final(state)@, step),
    {
        drop_from(state, entry_id)
    }

    /// Reorders entries by id. Entries that are not named keep their order
    /// behind the named ones. Answers how many positions changed.
    pub fn reorder(&self, state: &mut DispatchQueueState, entry_ids: &[String]) -> (step: Step<
        QueueReorderResponse,
    >)
        ensures
            final(state)@ == after_reorder(old(state)@, texts(entry_ids@)),
            step.reply.reordered_count == moved_count(
                old(state)@,
                named_first(old(state)@, texts(entry_ids@)),
            ),
            step.persist == (step.reply.reordered_count > 0),
    {
        reorder_entries(state, entry_ids)
    }

    /// Assigns a single pending entry. Idempotent on an assigned one.
    pub fn mark_assigned(
        &self,
        state: &mut DispatchQueueState,
        entry_id: &str,
        workflow_id: Option<String>,
    ) -> (answer: Result<Step<QueueMutationResponse>, QueueMutationError>)
        ensures
            exists|id: Seq<char>, now: UtcInstant|
                #![trigger is_uuid_v4(id), rfc3339_text(now.secs, now.nanos)]
                is_uuid_v4(id) && now.wf() && final(state)@ == after_mutation(
                    old(state)@,
                    entry_id@,
                    MutationView::Assign {
                        workflow_id: opt_text(workflow_id),
                        fallback: id,
                        at: rfc3339_text(now.secs, now.nanos),
                    },
                ) && mutation_answer(
                    old(state)@,
                    entry_id@,
                    MutationView::Assign {
                        workflow_id: opt_text(workflow_id),
                        fallback: id,
                        at: rfc3339_text(now.secs, now.nanos),
                    },
                    answer,
                ),
    {
        let fallback = fresh_uuid();
        let now = utc_now();
        mark_assigned_at(state, entry_id, workflow_id, fallback, now)
    }

    /// Takes note that a workflow ended, and prunes its entry. Only assigned
    /// entries are pruned, and only where the frame does not contradict them.
    pub fn completion(
        &self,
        state: &mut DispatchQueueState,
        entry_id: &str,
        status: &str,
        workflow_ref: Option<&str>,
        workflow_id: Option<&str>,
    ) -> (answer: Result<Step<QueueMutationResponse>, QueueCompletionError>)
        ensures
            match answer {
                Ok(step) => {
                    &&& is_terminal(status@)
                    &&& final(state)@ == after_completion(
                        old(state)@,
                        entry_id@,
                        opt_str(workflow_ref),
                        opt_str(workflow_id),
                    )
                    &&& removal_answer(old(state)@, final(state)@, step)
                },
                Err(QueueCompletionError::InvalidStatus { status: refused }) => {
                    &&& !is_terminal(status@)
                    &&& refused@ == status@
                    &&& final(state)@ == old(state)@
                },
            },
    {
        complete(state, entry_id, status, workflow_ref, workflow_id)
    }

    /// Returns an assigned entry to pending, clears its lease and records
    /// why. The queue has to be saved exactly when this succeeds.
    pub fn release_pending(
        &self,
        state: &mut DispatchQueueState,
        entry_id: &str,
        reason: &str,
    ) -> (answer: Result<QueueReleasePendingResponse, QueueReleasePendingError>)
        ensures
            match answer {
                Ok(response) => {
                    &&& knows(old(state)@, entry_id@)
                    &&& old(state)@[index_of_id(old(state)@, entry_id@)].status
                        == DispatchQueueEntryStatus::Assigned
                    &&& exists|now: UtcInstant|
                        #[trigger] released_at(
                            old(state)@,
                            final(state)@,
                            entry_id@,
                            reason@,
                            now,
                        )
                    &&& response.entry_id@ == entry_id@
                    &&& response.status@ == "pending"@
                },
                Err(QueueReleasePendingError::NotFound { entry_id: asked }) => {
                    &&& !knows(old(state)@, entry_id@)
                    &&& asked@ == entry_id@
                    &&& final(state)@ == old(state)@
                },
                Err(QueueReleasePendingError::NotAssigned { entry_id: asked, actual_state }) => {
                    let i = index_of_id(old(state)@, entry_id@);
                    &&& knows(old(state)@, entry_id@)
                    &&& old(state)@[i].status != DispatchQueueEntryStatus::Assigned
                    &&& asked@ == entry_id@
                    &&& actual_state@ == wire_status(old(state)@[i].status)
                    &&& final(state)@ == old(state)@
                },
                Err(QueueReleasePendingError::Backend(_)) => false,
            },
    {
        let now = utc_now();
        let ghost before = state@;
        let answer = release_pending_at(state, entry_id, reason, now);
        proof {
            if answer is Ok {
                assert(released_at(before, state@, entry_id@, reason@, now));
            }
        }
        answer
    }
}

} // verus!
