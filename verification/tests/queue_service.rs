//! Enqueueing, holding and reordering through the queue of a project root.
use std::path::PathBuf;

use animus_queue_default::dispatch_queue_state::DispatchQueueState;
use animus_queue_default::queue_service::QueueBackend;
use animus_queue_default::subject::SubjectDispatch;

fn dispatch_at(kind: &str, id: &str, workflow_ref: &str, requested_at: &str) -> SubjectDispatch {
    let builtin = kind == "task" || kind == "requirement";
    SubjectDispatch {
        subject_key: if builtin {
            id.to_string()
        } else {
            format!("{}::{}", kind, id)
        },
        subject_id: id.to_string(),
        task_id: if kind == "task" {
            Some(id.to_string())
        } else {
            None
        },
        workflow_ref: workflow_ref.to_string(),
        envelope: format!(
            "{{\"subject\":{{\"kind\":\"{}\",\"id\":\"{}\"}},\"workflow_ref\":\"{}\",\"trigger_source\":\"manual-queue-enqueue\",\"requested_at\":\"{}\"}}",
            kind, id, workflow_ref, requested_at
        ),
    }
}

fn task_dispatch(task_id: &str, workflow_ref: &str) -> SubjectDispatch {
    dispatch_at("task", task_id, workflow_ref, "2026-05-30T00:00:00Z")
}

fn queue() -> (QueueBackend, DispatchQueueState) {
    (
        QueueBackend::new(PathBuf::from("/project")),
        DispatchQueueState::default(),
    )
}

#[test]
fn enqueue_subject_dispatch_is_idempotent_for_same_task_pipeline() {
    let (backend, mut state) = queue();
    let dispatch = dispatch_at("task", "TASK-1", "standard", "2026-03-07T23:00:00Z");

    let first = backend.enqueue(&mut state, dispatch.clone()).reply;
    let second = backend.enqueue(&mut state, dispatch).reply;

    assert!(first.enqueued);
    assert!(!second.enqueued);
    // Idempotent: the second enqueue returns the same entry id.
    assert_eq!(first.entry_id, second.entry_id);
    let listed = backend.list(&state, &[], None, None);
    assert_eq!(listed.stats.total, 1);
    assert_eq!(listed.entries[0].subject_id, "TASK-1");
}

#[test]
fn hold_release_and_reorder_use_entry_ids() {
    let (backend, mut state) = queue();
    let first = backend
        .enqueue(&mut state, task_dispatch("TASK-1", "standard"))
        .reply;
    let second = backend
        .enqueue(&mut state, task_dispatch("TASK-2", "standard"))
        .reply;

    let hold = backend.hold(&mut state, &second.entry_id).expect("hold");
    assert!(hold.reply.changed);
    let release = backend
        .release(&mut state, &second.entry_id)
        .expect("release");
    assert!(release.reply.changed);
    let reorder = backend
        .reorder(
            &mut state,
            &[second.entry_id.clone(), first.entry_id.clone()],
        )
        .reply;
    assert_eq!(reorder.reordered_count, 2);

    let listed = backend.list(&state, &[], None, None);
    assert_eq!(listed.entries[0].subject_id, "TASK-2");
    assert_eq!(listed.entries[1].subject_id, "TASK-1");
}

#[test]
fn enqueue_subject_dispatch_accepts_non_task_subjects() {
    let (backend, mut state) = queue();

    let mut dispatch = dispatch_at("requirement", "REQ-39", "planning", "2026-05-30T00:00:00Z");
    dispatch.envelope = "{\"input\":{\"scope\":\"shared-ingress\"}}".to_string();
    let result = backend.enqueue(&mut state, dispatch).reply;

    assert!(result.enqueued);
    let listed = backend.list(&state, &[], None, None);
    assert_eq!(listed.stats.total, 1);
    assert_eq!(listed.entries[0].subject_id, "REQ-39");
    assert!(listed.entries[0].task_id.is_none());
    assert_eq!(listed.entries[0].subject_dispatch.workflow_ref, "planning");
}

#[test]
fn reorder_subjects_keeps_all_entries_for_same_subject() {
    let (backend, mut state) = queue();
    let standard = backend
        .enqueue(&mut state, task_dispatch("TASK-1", "standard"))
        .reply;
    let _t2 = backend
        .enqueue(&mut state, task_dispatch("TASK-2", "standard"))
        .reply;
    let ops = backend
        .enqueue(&mut state, task_dispatch("TASK-1", "ops"))
        .reply;

    // Reorder both TASK-1 entries to the front (named by entry id), preserving their requested order.
    let reorder = backend
        .reorder(
            &mut state,
            &[standard.entry_id.clone(), ops.entry_id.clone()],
        )
        .reply;
    assert!(reorder.reordered_count > 0);

    let listed = backend.list(&state, &[], None, None);
    assert_eq!(listed.stats.total, 3);
    assert_eq!(listed.entries[0].subject_id, "TASK-1");
    assert_eq!(listed.entries[0].subject_dispatch.workflow_ref, "standard");
    assert_eq!(listed.entries[1].subject_id, "TASK-1");
    assert_eq!(listed.entries[1].subject_dispatch.workflow_ref, "ops");
    assert_eq!(listed.entries[2].subject_id, "TASK-2");
}

#[test]
fn generic_subjects_use_kind_qualified_queue_ids() {
    let (backend, mut state) = queue();
    let dispatch = dispatch_at("pack.review", "REV-7", "review", "2026-03-08T08:00:00Z");

    let result = backend.enqueue(&mut state, dispatch).reply;

    assert!(result.enqueued);
    assert_eq!(result.subject_id, "pack.review::REV-7");
    let listed = backend.list(&state, &[], None, None);
    assert_eq!(listed.entries[0].subject_id, "pack.review::REV-7");
    assert!(listed.entries[0].task_id.is_none());
}
