//! Leasing, completion and loading, through a queue kept in memory.
use std::cell::RefCell;
use std::path::PathBuf;

use animus_queue_default::dispatch_queue_state::{
    DispatchQueueEntry, DispatchQueueEntryStatus, DispatchQueueState,
};
use animus_queue_default::dispatch_queue_store::{load_queue_state, LoadAction, LoadEvent};
use animus_queue_default::enqueueing::EnqueueOutcome;
use animus_queue_default::leasing::QueueLeaseError;
use animus_queue_default::mutations::{QueueCompletionError, QueueMutationError};
use animus_queue_default::queue_protocol::{
    QueueLeaseResponse, QueueListResponse, QueueMutationResponse,
};
use animus_queue_default::queue_service::QueueBackend;
use animus_queue_default::subject::SubjectDispatch;

/// A queue whose saved form is kept in memory: every operation loads it, and
/// only what an operation asks to save is kept.
struct Stored {
    backend: QueueBackend,
    saved: RefCell<Option<DispatchQueueState>>,
}

impl Stored {
    fn new() -> Self {
        Stored {
            backend: QueueBackend::new(PathBuf::from("/project")),
            saved: RefCell::new(None),
        }
    }

    fn holding(state: DispatchQueueState) -> Self {
        Stored {
            backend: QueueBackend::new(PathBuf::from("/project")),
            saved: RefCell::new(Some(state)),
        }
    }

    fn load(&self) -> DispatchQueueState {
        let event = match self.saved.borrow().as_ref() {
            Some(state) => LoadEvent::State(state.clone()),
            None => LoadEvent::Missing,
        };
        match load_queue_state(event) {
            LoadAction::Finish(Some(state)) => state,
            LoadAction::Finish(None) => DispatchQueueState::default(),
            LoadAction::Persist(state) => {
                self.save(&state);
                state
            }
            other => panic!("cannot load: {:?}", other),
        }
    }

    fn save(&self, state: &DispatchQueueState) {
        *self.saved.borrow_mut() = Some(state.clone());
    }

    fn enqueue(&self, dispatch: SubjectDispatch) -> Result<EnqueueOutcome, String> {
        let mut state = self.load();
        let step = self.backend.enqueue(&mut state, dispatch);
        if step.persist {
            self.save(&state);
        }
        Ok(step.reply)
    }

    fn lease(
        &self,
        max: usize,
        workflow_ids: Option<Vec<String>>,
    ) -> Result<QueueLeaseResponse, QueueLeaseError> {
        let mut state = self.load();
        let step = self.backend.lease(&mut state, max, workflow_ids, None)?;
        if step.persist {
            self.save(&state);
        }
        Ok(step.reply)
    }

    fn hold(&self, entry_id: &str) -> Result<QueueMutationResponse, QueueMutationError> {
        let mut state = self.load();
        let step = self.backend.hold(&mut state, entry_id)?;
        if step.persist {
            self.save(&state);
        }
        Ok(step.reply)
    }

    fn completion(
        &self,
        entry_id: &str,
        status: &str,
        workflow_ref: Option<&str>,
        workflow_id: Option<&str>,
    ) -> Result<QueueMutationResponse, QueueCompletionError> {
        let mut state = self.load();
        let step = self
            .backend
            .completion(&mut state, entry_id, status, workflow_ref, workflow_id)?;
        if step.persist {
            self.save(&state);
        }
        Ok(step.reply)
    }

    fn list(
        &self,
        status_filter: &[String],
        limit: Option<usize>,
        offset: Option<usize>,
    ) -> Result<QueueListResponse, String> {
        let state = self.load();
        Ok(self.backend.list(&state, status_filter, limit, offset))
    }
}

fn task_dispatch(task_id: &str, workflow_ref: &str) -> SubjectDispatch {
    SubjectDispatch {
        subject_key: task_id.to_string(),
        subject_id: task_id.to_string(),
        task_id: Some(task_id.to_string()),
        workflow_ref: workflow_ref.to_string(),
        envelope: format!("{{\"subject\":{{\"kind\":\"task\",\"id\":\"{}\"}}}}", task_id),
    }
}

#[test]
fn lease_returns_multiple_entries_atomically() {
    let backend = Stored::new();
    let first = backend
        .enqueue(task_dispatch("TASK-1", "standard"))
        .expect("enqueue 1");
    let second = backend
        .enqueue(task_dispatch("TASK-2", "standard"))
        .expect("enqueue 2");
    let _third = backend
        .enqueue(task_dispatch("TASK-3", "standard"))
        .expect("enqueue 3");

    let workflow_ids = vec!["wf-aaa".to_string(), "wf-bbb".to_string()];
    let leased = backend
        .lease(2, Some(workflow_ids.clone()))
        .expect("lease 2");

    assert_eq!(leased.leased.len(), 2, "should lease exactly 2 entries");
    assert_eq!(leased.leased[0].entry_id, first.entry_id);
    assert_eq!(leased.leased[0].workflow_id.as_deref(), Some("wf-aaa"));
    assert_eq!(leased.leased[0].status, "assigned");
    assert!(leased.leased[0].assigned_at.is_some());

    assert_eq!(leased.leased[1].entry_id, second.entry_id);
    assert_eq!(leased.leased[1].workflow_id.as_deref(), Some("wf-bbb"));
    assert_eq!(leased.leased[1].status, "assigned");

    // Persisted: a re-list should reflect 2 assigned + 1 pending.
    let listing = backend.list(&[], None, None).expect("list");
    assert_eq!(listing.stats.total, 3);
    assert_eq!(listing.stats.assigned, 2);
    assert_eq!(listing.stats.pending, 1);

    // Second lease pulls TASK-3 only: earlier entries are now assigned.
    let next = backend.lease(2, None).expect("lease 2 again");
    assert_eq!(next.leased.len(), 1);
    assert_eq!(next.leased[0].subject_id, "TASK-3");
}

#[test]
fn lease_workflow_id_count_mismatch_returns_typed_error() {
    let backend = Stored::new();
    backend
        .enqueue(task_dispatch("TASK-1", "standard"))
        .expect("enqueue");

    let result = backend.lease(2, Some(vec!["wf-only-one".to_string()]));
    match result {
        Err(QueueLeaseError::WorkflowIdCountMismatch { expected, actual }) => {
            assert_eq!(expected, 2);
            assert_eq!(actual, 1);
        }
        other => panic!("expected WorkflowIdCountMismatch, got {:?}", other),
    }

    // The queue state was not changed by the failed lease.
    let listing = backend.list(&[], None, None).expect("list");
    assert_eq!(listing.stats.total, 1);
    assert_eq!(listing.stats.pending, 1);
    assert_eq!(listing.stats.assigned, 0);
}

#[test]
fn lease_synthesizes_workflow_ids_when_omitted() {
    let backend = Stored::new();
    backend
        .enqueue(task_dispatch("TASK-1", "standard"))
        .expect("enqueue");

    let leased = backend.lease(1, None).expect("lease");
    assert_eq!(leased.leased.len(), 1);
    let workflow_id = leased.leased[0]
        .workflow_id
        .as_deref()
        .expect("synthetic workflow_id");
    // UUID v4 is 36 chars.
    assert_eq!(
        workflow_id.len(),
        36,
        "expected UUID v4-shaped workflow id, got {}",
        workflow_id
    );
}

#[test]
fn completion_does_not_drop_pending_or_held_entries() {
    let backend = Stored::new();
    let pending = backend
        .enqueue(task_dispatch("TASK-PENDING", "standard"))
        .expect("enqueue pending");
    let to_hold = backend
        .enqueue(task_dispatch("TASK-HELD", "standard"))
        .expect("enqueue held");
    backend.hold(&to_hold.entry_id).expect("hold");

    // A stale completion frame against a still pending entry must be a no-op
    // (not_found=true, changed=false) and must not remove queued work.
    let pending_completion = backend
        .completion(&pending.entry_id, "completed", None, None)
        .expect("completion pending");
    assert!(!pending_completion.changed);
    assert!(pending_completion.not_found);

    let held_completion = backend
        .completion(&to_hold.entry_id, "failed", None, None)
        .expect("completion held");
    assert!(!held_completion.changed);
    assert!(held_completion.not_found);

    let listing = backend.list(&[], None, None).expect("list");
    assert_eq!(listing.stats.total, 2);
    assert_eq!(listing.stats.pending, 1);
    assert_eq!(listing.stats.held, 1);
}

#[test]
fn completion_prunes_assigned_entries() {
    let backend = Stored::new();
    backend
        .enqueue(task_dispatch("TASK-1", "standard"))
        .expect("enqueue");
    let leased = backend
        .lease(1, Some(vec!["wf-1".to_string()]))
        .expect("lease");
    let entry_id = leased.leased[0].entry_id.clone();

    let outcome = backend
        .completion(&entry_id, "completed", Some("standard"), Some("wf-1"))
        .expect("completion");
    assert!(outcome.changed);
    assert!(!outcome.not_found);

    let listing = backend.list(&[], None, None).expect("list");
    assert_eq!(listing.stats.total, 0);
}

#[test]
fn legacy_queue_state_without_entry_ids_migrates_to_stable_ids() {
    // A state whose entry has no id yet: two consecutive loads must produce
    // the same ids.
    let legacy = DispatchQueueEntry {
        entry_id: String::new(),
        subject_id: Some("TASK-LEGACY-1".to_string()),
        task_id: "TASK-LEGACY-1".to_string(),
        dispatch: Some(task_dispatch("TASK-LEGACY-1", "standard")),
        status: DispatchQueueEntryStatus::Pending,
        workflow_id: None,
        enqueued_at: None,
        assigned_at: None,
        held_at: None,
        run_at: None,
        expire_after_secs: None,
        audit_log: Vec::new(),
    };
    let backend = Stored::holding(DispatchQueueState {
        entries: vec![legacy],
    });

    let first = backend.list(&[], None, None).expect("first list");
    assert_eq!(first.entries.len(), 1);
    let first_id = first.entries[0].entry_id.clone();
    assert!(!first_id.is_empty(), "migration should mint a non-empty id");

    let second = backend.list(&[], None, None).expect("second list");
    assert_eq!(second.entries.len(), 1);
    assert_eq!(
        second.entries[0].entry_id, first_id,
        "migrated entry id must be persisted so subsequent calls see the same id"
    );

    // And the migrated id must be addressable by a mutation.
    let mutated = backend.hold(&first_id).expect("hold migrated entry");
    assert!(mutated.changed);
}

#[test]
fn lease_skips_held_entries() {
    let backend = Stored::new();
    let one = backend
        .enqueue(task_dispatch("TASK-1", "standard"))
        .expect("enqueue 1");
    let two = backend
        .enqueue(task_dispatch("TASK-2", "standard"))
        .expect("enqueue 2");

    backend.hold(&one.entry_id).expect("hold first");

    let leased = backend.lease(5, None).expect("lease 5");
    assert_eq!(leased.leased.len(), 1);
    assert_eq!(leased.leased[0].entry_id, two.entry_id);
}
