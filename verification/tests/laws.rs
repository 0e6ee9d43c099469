//! What holds across operations, on concrete queues.
use animus_queue_default::clock::UtcInstant;
use animus_queue_default::dispatch_queue_state::{
    DispatchQueueEntry, DispatchQueueEntryStatus, DispatchQueueState,
};
use animus_queue_default::dispatch_queue_store::{
    load_queue_state, migrate_missing_entry_ids, LoadAction, LoadEvent,
};
use animus_queue_default::enqueueing::{enqueue_at, schedule_at};
use animus_queue_default::frames::{
    advance, peel_frames, skip_leading_whitespace, FrameStep, ParseOutcome,
};
use animus_queue_default::leasing::{entry_is_expired, lease_at, sweep_expired};
use animus_queue_default::listing::{list_at, next_deadline_at, stats_from_state};
use animus_queue_default::mutations::{
    complete, drop_from, hold_at, mark_assigned_at, mutate_entry, release_pending_at,
    EntryMutation,
};
use animus_queue_default::ordering::reorder_entries;
use animus_queue_default::queue_protocol::QueueEntry;
use animus_queue_default::subject::SubjectDispatch;

/// 2026-03-07T23:00:00Z and some seconds.
fn at(secs: i64) -> UtcInstant {
    UtcInstant {
        secs: 1_772_924_400 + secs,
        nanos: 0,
    }
}

fn text(secs: i64) -> String {
    at(secs).to_rfc3339()
}

fn task(id: &str, workflow_ref: &str) -> SubjectDispatch {
    SubjectDispatch {
        subject_key: id.to_string(),
        subject_id: id.to_string(),
        task_id: Some(id.to_string()),
        workflow_ref: workflow_ref.to_string(),
        envelope: String::new(),
    }
}

fn strings(list: &[&str]) -> Vec<String> {
    list.iter().map(|s| s.to_string()).collect()
}

/// A queue of tasks, one pending entry each, under the ids `a`, `b`, ...
fn queue(tasks: &[&str]) -> DispatchQueueState {
    let mut state = DispatchQueueState::default();
    for (i, id) in tasks.iter().enumerate() {
        let entry_id = ["a", "b", "c", "d", "e"][i].to_string();
        schedule_at(&mut state, task(id, "standard"), None, None, entry_id, at(0));
    }
    state
}

fn defer(state: &mut DispatchQueueState, id: &str, run_at: i64, window: Option<u64>) {
    schedule_at(
        state,
        task(id, "standard"),
        Some(text(run_at)),
        window,
        id.to_string(),
        at(0),
    );
}

fn lease(
    state: &mut DispatchQueueState,
    max: usize,
    exclude: Option<Vec<String>>,
    now: i64,
) -> Vec<QueueEntry> {
    let ids = strings(&["wf-0", "wf-1", "wf-2", "wf-3", "wf-4"]);
    lease_at(state, max, &ids, &exclude, at(now)).reply.leased
}

fn entry_ids(state: &DispatchQueueState) -> Vec<String> {
    state.entries.iter().map(|e| e.entry_id.clone()).collect()
}

fn leased_ids(leased: &[QueueEntry]) -> Vec<String> {
    leased.iter().map(|e| e.entry_id.clone()).collect()
}

fn shape(entry: &DispatchQueueEntry) -> String {
    format!("{:?}", entry)
}

fn shapes(state: &DispatchQueueState) -> Vec<String> {
    state.entries.iter().map(shape).collect()
}

fn coherent(entry: &DispatchQueueEntry) -> bool {
    let lease = entry.workflow_id.is_some() && entry.assigned_at.is_some();
    let none = entry.workflow_id.is_none() && entry.assigned_at.is_none();
    match entry.status {
        DispatchQueueEntryStatus::Pending => none && entry.held_at.is_none(),
        DispatchQueueEntryStatus::Assigned => lease && entry.held_at.is_none(),
        DispatchQueueEntryStatus::Held => none && entry.held_at.is_some(),
        DispatchQueueEntryStatus::Unknown => true,
    }
}

fn well_kept(state: &DispatchQueueState) -> bool {
    let ids = entry_ids(state);
    let distinct = ids
        .iter()
        .enumerate()
        .all(|(i, id)| !ids[..i].contains(id) && !id.trim().is_empty());
    distinct && state.entries.iter().all(coherent)
}

// --------------------------------------------------------------- time

#[test]
fn due_stays_due() {
    let mut state = DispatchQueueState::default();
    defer(&mut state, "d", 60, None);
    let entry = &state.entries[0];
    assert!(entry.is_deferred_until_future(at(0)));
    assert!(entry.is_deferred_until_future(at(59)));
    assert!(!entry.is_deferred_until_future(at(60)));
    assert!(!entry.is_deferred_until_future(at(61)));
}

#[test]
fn expired_stays_expired() {
    let mut state = DispatchQueueState::default();
    defer(&mut state, "d", 60, Some(30));
    let entry = &state.entries[0];
    assert!(!entry_is_expired(entry, at(90)));
    assert!(entry_is_expired(entry, at(91)));
    assert!(entry_is_expired(entry, at(10_000)));
}

#[test]
fn waiting_entries_do_not_expire() {
    let mut state = DispatchQueueState::default();
    defer(&mut state, "d", 60, Some(0));
    let entry = &state.entries[0];
    assert!(entry.is_deferred_until_future(at(59)) && !entry_is_expired(entry, at(59)));
    assert!(!entry_is_expired(entry, at(60)));
    assert!(entry_is_expired(entry, at(61)));
}

#[test]
fn without_a_window_nothing_expires() {
    let mut state = DispatchQueueState::default();
    defer(&mut state, "d", 60, None);
    schedule_at(&mut state, task("T", "w"), None, Some(1), "n".to_string(), at(0));
    assert!(!entry_is_expired(&state.entries[0], at(1_000_000)));
    assert!(!entry_is_expired(&state.entries[1], at(1_000_000)));
    assert_eq!(lease(&mut state, 5, None, 1_000_000).len(), 2);
}

#[test]
fn a_malformed_run_at_delays_nothing() {
    let mut state = DispatchQueueState::default();
    let run_at = Some("tomorrow, maybe".to_string());
    schedule_at(&mut state, task("T", "w"), run_at, Some(1), "m".to_string(), at(0));
    assert!(state.entries[0].parsed_run_at().is_none());
    assert_eq!(leased_ids(&lease(&mut state, 1, None, 0)), strings(&["m"]));
}

#[test]
fn a_deferred_entry_is_leased_once_it_is_due() {
    let mut state = DispatchQueueState::default();
    defer(&mut state, "d", 60, None);
    assert!(lease(&mut state, 1, None, 59).is_empty());
    assert_eq!(state.entries[0].status, DispatchQueueEntryStatus::Pending);
    assert_eq!(leased_ids(&lease(&mut state, 1, None, 60)), strings(&["d"]));
}

#[test]
fn sweeps_drop_only_what_is_expired() {
    let mut state = queue(&["T-1"]);
    defer(&mut state, "x", 10, Some(5));
    defer(&mut state, "y", 10, Some(50));
    assert!(!sweep_expired(&mut state, at(15)));
    assert!(sweep_expired(&mut state, at(16)));
    assert_eq!(entry_ids(&state), strings(&["a", "y"]));
    assert!(!sweep_expired(&mut state, at(16)));
}

#[test]
fn a_later_sweep_makes_earlier_ones_superfluous() {
    let mut twice = DispatchQueueState::default();
    defer(&mut twice, "x", 10, Some(5));
    defer(&mut twice, "y", 10, Some(50));
    let mut once = twice.clone();
    sweep_expired(&mut twice, at(20));
    sweep_expired(&mut twice, at(100));
    sweep_expired(&mut once, at(100));
    assert_eq!(shapes(&twice), shapes(&once));
    assert!(once.entries.is_empty());
}

#[test]
fn assigned_and_held_entries_do_not_expire() {
    let mut state = DispatchQueueState::default();
    defer(&mut state, "x", 10, Some(5));
    defer(&mut state, "y", 10, Some(5));
    hold_at(&mut state, "y", at(11)).expect("hold");
    lease(&mut state, 1, None, 12);
    assert!(!sweep_expired(&mut state, at(1_000)));
    assert_eq!(state.entries.len(), 2);
}

#[test]
fn nothing_is_due_before_the_next_deadline() {
    let mut state = queue(&["T-1"]);
    defer(&mut state, "x", 90, None);
    defer(&mut state, "y", 60, None);
    let next = next_deadline_at(&state, at(0)).expect("deadline");
    assert_eq!(next, at(60));
    for now in [0, 30, 59] {
        assert_eq!(stats_from_state(&state, at(now)).deferred, 2);
    }
    assert_eq!(stats_from_state(&state, next).deferred, 1);
    assert_eq!(next_deadline_at(&state, at(60)), Some(at(90)));
    assert_eq!(next_deadline_at(&state, at(90)), None);
}

// -------------------------------------------------------------- leases

#[test]
fn leases_are_first_in_first_out() {
    let mut state = queue(&["T-1", "T-2", "T-3", "T-4"]);
    hold_at(&mut state, "b", at(1)).expect("hold");
    assert_eq!(leased_ids(&lease(&mut state, 2, None, 2)), strings(&["a", "c"]));
    assert_eq!(leased_ids(&lease(&mut state, 2, None, 3)), strings(&["d"]));
}

#[test]
fn leases_take_what_there_is() {
    assert_eq!(lease(&mut queue(&["T-1", "T-2", "T-3"]), 2, None, 1).len(), 2);
    assert_eq!(lease(&mut queue(&["T-1", "T-2"]), 5, None, 1).len(), 2);
    assert_eq!(lease(&mut queue(&["T-1"]), 0, None, 1).len(), 0);
    assert_eq!(lease(&mut queue(&[]), 3, None, 1).len(), 0);
}

#[test]
fn only_pending_entries_with_an_envelope_are_leased() {
    let mut state = queue(&["T-1", "T-2", "T-3", "T-4"]);
    state.entries[0].dispatch = None;
    state.entries[1].status = DispatchQueueEntryStatus::Unknown;
    state.entries[2].status = DispatchQueueEntryStatus::Assigned;
    assert_eq!(leased_ids(&lease(&mut state, 5, None, 1)), strings(&["d"]));
}

#[test]
fn excluded_subjects_are_passed_over() {
    let mut state = queue(&["T-1", "T-2", "T-1", "T-3", "T-3"]);
    let leased = lease(&mut state, 5, Some(strings(&["T-2"])), 1);
    // T-2 is listed; the second entries of T-1 and T-3 must wait.
    assert_eq!(leased_ids(&leased), strings(&["a", "d"]));
    assert_eq!(state.entries[1].status, DispatchQueueEntryStatus::Pending);
    // Without a list there is no filtering at all.
    let mut state = queue(&["T-1", "T-2", "T-1"]);
    assert_eq!(lease(&mut state, 5, None, 1).len(), 3);
    // An empty list still keeps subjects apart.
    let mut state = queue(&["T-1", "T-2", "T-1"]);
    assert_eq!(
        leased_ids(&lease(&mut state, 5, Some(Vec::new()), 1)),
        strings(&["a", "b"])
    );
}

#[test]
fn a_subject_runs_one_entry_at_a_time() {
    let mut state = queue(&["T-1", "T-2", "T-1", "T-2", "T-3"]);
    let mut running: Vec<String> = Vec::new();
    for now in 1..4 {
        let leased = lease(&mut state, 2, Some(running.clone()), now);
        for entry in &leased {
            assert!(!running.contains(&entry.subject_dispatch.subject_key));
            running.push(entry.subject_dispatch.subject_key.clone());
        }
    }
    running.sort();
    assert_eq!(running, strings(&["T-1", "T-2", "T-3"]));
}

#[test]
fn deferred_entries_are_not_yet_leasable() {
    let mut state = queue(&["T-1"]);
    defer(&mut state, "x", 60, None);
    let stats = stats_from_state(&state, at(30));
    assert_eq!((stats.pending, stats.deferred), (2, 1));
    assert_eq!(lease(&mut state, 5, None, 30).len(), stats.pending - stats.deferred);
}

#[test]
fn a_lease_changes_only_what_it_leases() {
    let mut state = queue(&["T-1", "T-2"]);
    let before = state.clone();
    let leased = lease(&mut state, 1, None, 7);
    assert_eq!(shape(&state.entries[1]), shape(&before.entries[1]));
    assert_eq!(state.entries[0].status, DispatchQueueEntryStatus::Assigned);
    assert_eq!(state.entries[0].workflow_id.as_deref(), Some("wf-0"));
    assert_eq!(state.entries[0].assigned_at, Some(text(7)));
    assert_eq!(state.entries[0].enqueued_at, before.entries[0].enqueued_at);
    assert_eq!(leased[0].workflow_id, state.entries[0].workflow_id);
    assert_eq!(leased[0].assigned_at, state.entries[0].assigned_at);
}

#[test]
fn nothing_is_leased_twice() {
    let mut state = queue(&["T-1", "T-2", "T-3"]);
    let first = leased_ids(&lease(&mut state, 2, None, 1));
    let second = leased_ids(&lease(&mut state, 5, None, 2));
    assert!(first.iter().all(|id| !second.contains(id)));
    assert!(lease(&mut state, 5, None, 3).is_empty());
}

#[test]
fn a_lease_moves_the_counts() {
    let mut state = queue(&["T-1", "T-2", "T-3"]);
    hold_at(&mut state, "c", at(1)).expect("hold");
    let before = stats_from_state(&state, at(1));
    assert_eq!((before.pending, before.assigned, before.held), (2, 0, 1));
    lease(&mut state, 1, None, 2);
    let after = stats_from_state(&state, at(2));
    assert_eq!((after.pending, after.assigned, after.held), (1, 1, 1));
}

#[test]
fn a_listing_shows_what_was_leased() {
    let mut state = queue(&["T-1", "T-2"]);
    let leased = lease(&mut state, 1, None, 3);
    let listed = list_at(&state, &[], None, None, at(9));
    assert_eq!(format!("{:?}", listed.entries[0]), format!("{:?}", leased[0]));
    let assigned = list_at(&state, &strings(&["assigned"]), None, None, at(9));
    assert_eq!(assigned.total, 1);
    assert_eq!(assigned.entries[0].entry_id, "a");
}

// ------------------------------------------------------------- enqueue

#[test]
fn enqueue_is_idempotent() {
    let mut state = DispatchQueueState::default();
    let first = enqueue_at(&mut state, task("T-1", "w"), "a".to_string(), at(0));
    let before = shapes(&state);
    let second = enqueue_at(&mut state, task("T-1", "w"), "b".to_string(), at(5));
    assert!(first.reply.enqueued && first.persist);
    assert!(!second.reply.enqueued && !second.persist);
    assert_eq!(second.reply.entry_id, "a");
    assert_eq!(shapes(&state), before);
    // Another workflow is other work.
    let other = enqueue_at(&mut state, task("T-1", "x"), "c".to_string(), at(5));
    assert!(other.reply.enqueued);
    // Held and assigned entries still stand for their work.
    hold_at(&mut state, "a", at(6)).expect("hold");
    assert!(!enqueue_at(&mut state, task("T-1", "w"), "d".to_string(), at(7)).reply.enqueued);
    // An entry of unknown status does not.
    state.entries[0].status = DispatchQueueEntryStatus::Unknown;
    assert!(enqueue_at(&mut state, task("T-1", "w"), "e".to_string(), at(8)).reply.enqueued);
}

#[test]
fn a_subject_is_recognised_by_its_key_as_it_stands() {
    for key in [" T-1", "T-1\t", " ", "", "pack.review::T-1"] {
        let mut state = DispatchQueueState::default();
        let mut dispatch = task("T-1", "w");
        dispatch.subject_key = key.to_string();
        assert!(enqueue_at(&mut state, dispatch.clone(), "a".to_string(), at(0)).reply.enqueued);
        let again = enqueue_at(&mut state, dispatch.clone(), "b".to_string(), at(0));
        assert!(!again.reply.enqueued);
        assert_eq!(again.reply.entry_id, "a");
        let second = schedule_at(&mut state, dispatch, None, None, "c".to_string(), at(0));
        assert_eq!(
            second.reply.warning,
            Some(format!("subject {} already has queue entry a (pending)", key))
        );
        // An envelope without a cached subject id has its key all the same.
        state.entries[0].subject_id = None;
        let mut dispatch = task("T-1", "w");
        dispatch.subject_key = key.to_string();
        assert!(!enqueue_at(&mut state, dispatch, "d".to_string(), at(0)).reply.enqueued);
    }
}

#[test]
fn an_entry_without_envelope_is_matched_by_its_task() {
    let mut state = queue(&["T-1"]);
    state.entries[0].dispatch = None;
    let same = enqueue_at(&mut state, task("T-1", "any"), "b".to_string(), at(0));
    assert!(!same.reply.enqueued);
    state.entries[0].task_id = "T-9".to_string();
    let other = enqueue_at(&mut state, task("T-1", "any"), "b".to_string(), at(0));
    assert!(other.reply.enqueued);
}

#[test]
fn scheduled_enqueues_always_append() {
    let mut state = queue(&["T-1"]);
    let step = schedule_at(&mut state, task("T-1", "standard"), None, None, "z".to_string(), at(1));
    assert!(step.reply.enqueued && step.persist);
    assert_eq!(step.reply.entry_id, "z");
    assert_eq!(
        step.reply.warning.as_deref(),
        Some("subject T-1 already has queue entry a (pending)")
    );
    assert_eq!(entry_ids(&state), strings(&["a", "z"]));
    let fresh = schedule_at(&mut state, task("T-2", "standard"), None, None, "y".to_string(), at(1));
    assert!(fresh.reply.warning.is_none());
}

#[test]
fn an_enqueue_sweeps_first() {
    let mut state = DispatchQueueState::default();
    defer(&mut state, "T-1", 10, Some(5));
    // The expired entry is gone, so it is neither a duplicate nor a collision.
    let step = enqueue_at(&mut state, task("T-1", "standard"), "n".to_string(), at(100));
    assert!(step.reply.enqueued);
    assert_eq!(entry_ids(&state), strings(&["n"]));
}

#[test]
fn a_listing_shows_what_was_enqueued() {
    let mut state = queue(&["T-1"]);
    schedule_at(&mut state, task("T-2", "ops"), None, None, "z".to_string(), at(4));
    let listed = list_at(&state, &[], None, None, at(9));
    let last = &listed.entries[1];
    assert_eq!(last.entry_id, "z");
    assert_eq!(last.subject_dispatch.workflow_ref, "ops");
    assert_eq!(last.status, "pending");
    assert_eq!(last.enqueued_at, text(4));
    assert!(last.workflow_id.is_none());
}

// ----------------------------------------------------- single entries

#[test]
fn a_change_touches_one_entry() {
    let mut state = queue(&["T-1", "T-2", "T-3"]);
    let before = state.clone();
    hold_at(&mut state, "b", at(1)).expect("hold");
    assert_eq!(shape(&state.entries[0]), shape(&before.entries[0]));
    assert_eq!(shape(&state.entries[2]), shape(&before.entries[2]));
    assert_eq!(entry_ids(&state), entry_ids(&before));
    assert_eq!(state.entries[1].held_at, Some(text(1)));
}

#[test]
fn changes_are_idempotent() {
    let mut state = queue(&["T-1", "T-2"]);
    assert!(hold_at(&mut state, "a", at(1)).expect("hold").persist);
    let held = shapes(&state);
    let again = hold_at(&mut state, "a", at(2)).expect("hold again");
    assert!(!again.persist && !again.reply.changed && !again.reply.not_found);
    assert_eq!(shapes(&state), held);

    let wf = Some("wf".to_string());
    assert!(mark_assigned_at(&mut state, "b", wf, "f".to_string(), at(3)).expect("assign").persist);
    let assigned = shapes(&state);
    let other = Some("other".to_string());
    let again = mark_assigned_at(&mut state, "b", other, "f".to_string(), at(4)).expect("again");
    assert!(!again.reply.changed);
    assert_eq!(shapes(&state), assigned);
    assert_eq!(state.entries[1].workflow_id.as_deref(), Some("wf"));
}

#[test]
fn an_assignment_falls_back_to_the_attached_workflow() {
    let mut state = queue(&["T-1", "T-2"]);
    state.entries[0].workflow_id = Some("attached".to_string());
    mark_assigned_at(&mut state, "a", None, "fallback".to_string(), at(1)).expect("assign");
    mark_assigned_at(&mut state, "b", None, "fallback".to_string(), at(1)).expect("assign");
    assert_eq!(state.entries[0].workflow_id.as_deref(), Some("attached"));
    assert_eq!(state.entries[1].workflow_id.as_deref(), Some("fallback"));
    assert_eq!(state.entries[1].assigned_at, Some(text(1)));
}

#[test]
fn a_release_undoes_a_hold() {
    let mut state = queue(&["T-1", "T-2"]);
    let before = shapes(&state);
    hold_at(&mut state, "a", at(1)).expect("hold");
    assert_eq!(leased_ids(&lease(&mut state.clone(), 5, None, 2)), strings(&["b"]));
    mutate_entry(&mut state, "a", EntryMutation::Release).expect("release");
    assert_eq!(shapes(&state), before);
}

#[test]
fn a_drop_removes_the_id_alone() {
    let mut state = queue(&["T-1", "T-2", "T-3"]);
    let step = drop_from(&mut state, "b");
    assert!(step.reply.changed && !step.reply.not_found && step.persist);
    assert_eq!(entry_ids(&state), strings(&["a", "c"]));
    let again = drop_from(&mut state, "b");
    assert!(!again.reply.changed && again.reply.not_found && !again.persist);
    assert_eq!(entry_ids(&state), strings(&["a", "c"]));
}

#[test]
fn completions_spare_queued_work() {
    let mut state = queue(&["T-1", "T-2", "T-3"]);
    hold_at(&mut state, "b", at(1)).expect("hold");
    lease(&mut state, 1, None, 2);
    for id in ["b", "c", "nobody"] {
        let step = complete(&mut state, id, "completed", None, None).expect("frame");
        assert!(step.reply.not_found && !step.persist);
    }
    assert_eq!(entry_ids(&state), strings(&["a", "b", "c"]));
    assert!(complete(&mut state, "a", "completed", None, None).expect("frame").persist);
    assert_eq!(entry_ids(&state), strings(&["b", "c"]));
}

#[test]
fn completions_of_another_workflow_change_nothing() {
    let mut state = queue(&["T-1"]);
    lease(&mut state, 1, None, 2);
    let other_id = complete(&mut state, "a", "failed", None, Some("wf-9")).expect("frame");
    assert!(other_id.reply.not_found);
    let other_ref = complete(&mut state, "a", "failed", Some("ops"), None).expect("frame");
    assert!(other_ref.reply.not_found);
    assert_eq!(state.entries.len(), 1);
}

#[test]
fn a_completion_ends_a_lease() {
    let mut state = queue(&["T-1", "T-2"]);
    let leased = lease(&mut state, 1, None, 2);
    let workflow_ref = leased[0].subject_dispatch.workflow_ref.clone();
    let step = complete(
        &mut state,
        &leased[0].entry_id,
        "cancelled",
        Some(&workflow_ref),
        leased[0].workflow_id.as_deref(),
    )
    .expect("frame");
    assert!(step.reply.changed);
    assert_eq!(entry_ids(&state), strings(&["b"]));
}

#[test]
fn releasing_a_lease_undoes_it_but_for_the_audit_row() {
    let mut state = queue(&["T-1", "T-2"]);
    let before = state.clone();
    lease(&mut state, 1, None, 2);
    release_pending_at(&mut state, "a", "host went away", at(5)).expect("release");
    let row = &state.entries[0].audit_log[0];
    assert_eq!(row.at, text(5));
    assert_eq!(row.method, "queue/release_pending");
    assert_eq!(row.from_status, "assigned");
    assert_eq!(row.to_status, "pending");
    assert_eq!(row.reason, "host went away");
    assert_eq!(state.entries[0].audit_log.len(), 1);
    assert_eq!(shape(&state.entries[1]), shape(&before.entries[1]));
    let mut back = state.clone();
    back.entries[0].audit_log = Vec::new();
    assert_eq!(shapes(&back), shapes(&before));
    // It can be leased again, ahead of the others.
    assert_eq!(leased_ids(&lease(&mut state, 1, None, 6)), strings(&["a"]));
    release_pending_at(&mut state, "a", "again", at(7)).expect("release");
    assert_eq!(state.entries[0].audit_log.len(), 2);
    assert_eq!(state.entries[0].audit_log[0].reason, "host went away");
}

// ------------------------------------------------------------ reordering

#[test]
fn a_reordering_keeps_all_entries() {
    let mut state = queue(&["T-1", "T-2", "T-3", "T-4"]);
    let step = reorder_entries(&mut state, &strings(&["c", "nobody", "c", "a"]));
    assert_eq!(entry_ids(&state), strings(&["c", "a", "b", "d"]));
    assert_eq!(step.reply.reordered_count, 3);
    assert!(step.persist);
    let mut subjects: Vec<String> = state.entries.iter().map(|e| e.task_id.clone()).collect();
    subjects.sort();
    assert_eq!(subjects, strings(&["T-1", "T-2", "T-3", "T-4"]));
}

#[test]
fn a_reordering_that_moves_nothing_is_not_saved() {
    let mut state = queue(&["T-1", "T-2", "T-3"]);
    let before = shapes(&state);
    for names in [strings(&[]), strings(&["a", "b"]), strings(&["nobody"])] {
        let step = reorder_entries(&mut state, &names);
        assert_eq!(step.reply.reordered_count, 0);
        assert!(!step.persist);
        assert_eq!(shapes(&state), before);
    }
}

#[test]
fn named_entries_come_first_and_the_others_keep_their_order() {
    let mut state = queue(&["T-1", "T-2", "T-3", "T-4", "T-5"]);
    reorder_entries(&mut state, &strings(&["d", "b"]));
    assert_eq!(entry_ids(&state), strings(&["d", "b", "a", "c", "e"]));
}

#[test]
fn entries_of_one_id_are_named_one_by_one() {
    let mut state = queue(&["T-1", "T-2", "T-3"]);
    state.entries[2].entry_id = "a".to_string();
    let step = reorder_entries(&mut state, &strings(&["a", "a"]));
    assert_eq!(entry_ids(&state), strings(&["a", "a", "b"]));
    assert_eq!(step.reply.reordered_count, 2);
    assert_eq!(state.entries[1].task_id, "T-3");
}

// ------------------------------------------------------------- loading

#[test]
fn new_ids_are_stable() {
    let mut state = queue(&["T-1", "T-2"]);
    state.entries[1].entry_id = " \t".to_string();
    let saved = match load_queue_state(LoadEvent::State(state)) {
        LoadAction::Persist(state) => state,
        other => panic!("expected new ids, got {:?}", other),
    };
    assert_eq!(saved.entries[0].entry_id, "a");
    assert_eq!(saved.entries[1].entry_id.len(), 36);
    match load_queue_state(LoadEvent::State(saved.clone())) {
        LoadAction::Finish(Some(state)) => assert_eq!(shapes(&state), shapes(&saved)),
        other => panic!("expected the same queue, got {:?}", other),
    }
}

#[test]
fn loading_keeps_entries() {
    let mut state = queue(&["T-1", "T-2", "T-3"]);
    state.entries[0].entry_id = String::new();
    let before = state.clone();
    assert!(migrate_missing_entry_ids(&mut state));
    assert_eq!(shape(&state.entries[1]), shape(&before.entries[1]));
    let mut first = state.entries[0].clone();
    first.entry_id = String::new();
    assert_eq!(shape(&first), shape(&before.entries[0]));
    assert!(!migrate_missing_entry_ids(&mut state));
}

// -------------------------------------------------- counts and listings

#[test]
fn counts_add_up() {
    let mut state = queue(&["T-1", "T-2", "T-3"]);
    hold_at(&mut state, "b", at(1)).expect("hold");
    lease(&mut state, 1, None, 2);
    defer(&mut state, "x", 60, None);
    let stats = stats_from_state(&state, at(3));
    assert_eq!(stats.total, 4);
    assert_eq!(stats.pending, 2);
    assert_eq!(stats.assigned, 1);
    assert_eq!(stats.held, 1);
    assert_eq!(stats.deferred, 1);
    state.entries[0].status = DispatchQueueEntryStatus::Unknown;
    let stats = stats_from_state(&state, at(3));
    assert_eq!(stats.pending + stats.assigned + stats.held, stats.total - 1);
}

#[test]
fn pages_join() {
    let state = queue(&["T-1", "T-2", "T-3", "T-4", "T-5"]);
    let whole = list_at(&state, &[], None, None, at(1));
    let first = list_at(&state, &[], Some(2), Some(0), at(1));
    let second = list_at(&state, &[], Some(2), Some(2), at(1));
    let last = list_at(&state, &[], None, Some(4), at(1));
    let mut joined = leased_ids(&first.entries);
    joined.extend(leased_ids(&second.entries));
    joined.extend(leased_ids(&last.entries));
    assert_eq!(joined, leased_ids(&whole.entries));
    assert_eq!((first.total, second.total, last.total), (5, 5, 5));
    assert!(list_at(&state, &[], Some(9), Some(5), at(1)).entries.is_empty());
    assert!(list_at(&state, &[], Some(0), None, at(1)).entries.is_empty());
}

#[test]
fn all_pages_are_the_whole_listing() {
    let mut state = queue(&["T-1", "T-2", "T-3", "T-4", "T-5"]);
    hold_at(&mut state, "b", at(1)).expect("hold");
    state.entries[2].dispatch = None;
    for statuses in [strings(&[]), strings(&["pending"]), strings(&["held"])] {
        let whole = list_at(&state, &statuses, None, None, at(2));
        for limit in 1..7 {
            let mut seen: Vec<String> = Vec::new();
            let mut offset: usize = 0;
            while offset < whole.total {
                let now = at(3 + offset as i64);
                let page = list_at(&state, &statuses, Some(limit), Some(offset), now);
                assert_eq!(page.total, whole.total);
                assert_eq!(page.stats, whole.stats);
                seen.extend(page.entries.iter().map(|e| format!("{:?}", e)));
                offset += limit;
            }
            let all: Vec<String> = whole.entries.iter().map(|e| format!("{:?}", e)).collect();
            assert_eq!(seen, all);
        }
    }
}

#[test]
fn listings_filter_by_status() {
    let mut state = queue(&["T-1", "T-2", "T-3"]);
    hold_at(&mut state, "b", at(1)).expect("hold");
    let held = list_at(&state, &strings(&["held", "assigned"]), None, None, at(1));
    assert_eq!(leased_ids(&held.entries), strings(&["b"]));
    assert_eq!(held.total, 1);
    assert_eq!(held.stats.total, 3);
    let none = list_at(&state, &strings(&["Held"]), None, None, at(1));
    assert_eq!(none.total, 0);
}

#[test]
fn entries_without_envelope_count_but_are_not_shown() {
    let mut state = queue(&["T-1", "T-2", "T-3"]);
    state.entries[1].dispatch = None;
    let page = list_at(&state, &[], Some(2), None, at(1));
    assert_eq!(page.total, 3);
    assert_eq!(leased_ids(&page.entries), strings(&["a"]));
}

#[test]
fn an_entry_without_enqueue_time_shows_the_time_of_the_answer() {
    let mut state = queue(&["T-1"]);
    state.entries[0].enqueued_at = None;
    let listed = list_at(&state, &[], None, None, at(42));
    assert_eq!(listed.entries[0].enqueued_at, "2026-03-07T23:00:42+00:00");
}

#[test]
fn wire_forms_differ() {
    assert_eq!(DispatchQueueEntryStatus::Pending.as_wire(), "pending");
    assert_eq!(DispatchQueueEntryStatus::Assigned.as_wire(), "assigned");
    assert_eq!(DispatchQueueEntryStatus::Held.as_wire(), "held");
    assert_eq!(DispatchQueueEntryStatus::Unknown.as_wire(), "unknown");
    assert_eq!(
        DispatchQueueEntryStatus::default(),
        DispatchQueueEntryStatus::Pending
    );
}

// --------------------------------------------------------- well-keeping

#[test]
fn every_operation_keeps_the_queue_well_kept() {
    let mut state = DispatchQueueState::default();
    assert!(well_kept(&state));
    state = queue(&["T-1", "T-2", "T-3", "T-4"]);
    defer(&mut state, "x", 10, Some(1));
    assert!(well_kept(&state));
    enqueue_at(&mut state, task("T-9", "w"), "n".to_string(), at(1));
    assert!(well_kept(&state));
    hold_at(&mut state, "b", at(2)).expect("hold");
    assert!(well_kept(&state));
    lease(&mut state, 2, None, 20);
    assert!(well_kept(&state));
    mark_assigned_at(&mut state, "d", None, "f".to_string(), at(21)).expect("assign");
    assert!(well_kept(&state));
    release_pending_at(&mut state, "a", "why", at(22)).expect("release");
    assert!(well_kept(&state));
    reorder_entries(&mut state, &strings(&["n", "b"]));
    assert!(well_kept(&state));
    complete(&mut state, "c", "completed", None, None).expect("frame");
    assert!(well_kept(&state));
    drop_from(&mut state, "d");
    assert!(well_kept(&state));
    mutate_entry(&mut state, "b", EntryMutation::Release).expect("release");
    assert!(well_kept(&state));
    assert_eq!(entry_ids(&state), strings(&["n", "b", "a"]));
}

#[test]
fn a_listing_shows_every_entry() {
    let mut state = queue(&["T-1", "T-2", "T-3", "T-4"]);
    hold_at(&mut state, "b", at(1)).expect("hold");
    lease(&mut state, 1, None, 2);
    assert!(hold_at(&mut state, "a", at(3)).is_err());
    drop_from(&mut state, "d");
    reorder_entries(&mut state, &strings(&["c"]));
    let listed = list_at(&state, &[], None, None, at(4));
    assert_eq!(leased_ids(&listed.entries), strings(&["c", "a", "b"]));
    assert_eq!(listed.total, 3);
    assert_eq!(listed.stats.total, 3);
    for entry in &listed.entries {
        assert!(!entry.entry_id.is_empty());
        assert_eq!(entry.status == "held", entry.held_at.is_some());
        assert_eq!(entry.status == "assigned", entry.workflow_id.is_some());
        assert_eq!(entry.status == "assigned", entry.assigned_at.is_some());
        assert!(["pending", "assigned", "held"].contains(&entry.status.as_str()));
    }
}

#[test]
fn what_is_not_saved_is_not_changed() {
    let mut state = queue(&["T-1"]);
    lease(&mut state, 1, None, 1);
    let before = shapes(&state);
    let ids = strings(&["wf"]);
    assert!(!lease_at(&mut state, 1, &ids, &None, at(2)).persist);
    assert!(!enqueue_at(&mut state, task("T-1", "standard"), "z".to_string(), at(3)).persist);
    assert!(hold_at(&mut state, "a", at(4)).is_err());
    assert!(!hold_at(&mut state, "nobody", at(4)).expect("unknown").persist);
    assert_eq!(shapes(&state), before);
}

#[test]
fn a_lease_that_only_sweeps_is_saved() {
    let mut state = DispatchQueueState::default();
    defer(&mut state, "x", 10, Some(5));
    let step = lease_at(&mut state, 1, &strings(&["wf"]), &None, at(100));
    assert!(step.persist && step.reply.leased.is_empty() && state.entries.is_empty());
    defer(&mut state, "y", 10, Some(5));
    let idle = lease_at(&mut state, 0, &Vec::new(), &None, at(100));
    assert!(!idle.persist && state.entries.len() == 1);
}

// --------------------------------------------------------------- frames

#[test]
fn frames_are_taken_off_the_buffer() {
    let mut buffer = b" \r\n\t\x0c{}  {".to_vec();
    assert!(skip_leading_whitespace(&mut buffer));
    assert_eq!(buffer, b"{}  {".to_vec());
    let step = advance(&mut buffer, ParseOutcome::Frame { consumed: 2 });
    assert_eq!(step, FrameStep::Dispatch);
    assert!(skip_leading_whitespace(&mut buffer));
    assert_eq!(buffer, b"{".to_vec());
    assert_eq!(advance(&mut buffer, ParseOutcome::Incomplete), FrameStep::AwaitInput);
    assert_eq!(buffer, b"{".to_vec());
    let mut blank = b" \n".to_vec();
    assert!(!skip_leading_whitespace(&mut blank));
    assert_eq!(advance(&mut blank, ParseOutcome::Exhausted), FrameStep::AwaitInput);
}

/// Parses a JSON object at the front of the buffer.
fn parse_object(
    buffer: &Vec<u8>,
) -> (
    ParseOutcome,
    Option<serde_json::Map<String, serde_json::Value>>,
) {
    let mut stream = serde_json::Deserializer::from_slice(buffer)
        .into_iter::<serde_json::Map<String, serde_json::Value>>();
    match stream.next() {
        Some(Ok(object)) => {
            let consumed = stream.byte_offset();
            (ParseOutcome::Frame { consumed }, Some(object))
        }
        Some(Err(error)) if error.is_eof() => (ParseOutcome::Incomplete, None),
        Some(Err(_)) => (ParseOutcome::Invalid, None),
        None => (ParseOutcome::Exhausted, None),
    }
}

/// The ids of the objects in `input`, read `size` bytes at a time.
fn ids_read(input: &[u8], size: usize) -> Vec<i64> {
    let mut buffer: Vec<u8> = Vec::new();
    let mut ids: Vec<i64> = Vec::new();
    for read in input.chunks(size) {
        buffer.extend_from_slice(read);
        for object in peel_frames(&mut buffer, parse_object) {
            ids.push(object["id"].as_i64().expect("id"));
        }
    }
    ids
}

#[test]
fn the_cutting_and_spacing_of_the_input_do_not_matter() {
    let lines = b"{\"id\":1,\"a\":[2]}\n{\"id\":2}\n{\"id\":3}\n";
    let packed = b"{\"id\":1,\"a\":[2]}{\"id\":2}{\"id\":3}";
    let pretty = b" \r\n{\n  \"id\": 1,\n  \"a\": [\n 2 ]\n}\t{\n\"id\":\n2}\x0c{\"id\":3}  ";
    for size in 1..60 {
        assert_eq!(ids_read(lines, size), vec![1, 2, 3]);
        assert_eq!(ids_read(packed, size), vec![1, 2, 3]);
        assert_eq!(ids_read(pretty, size), vec![1, 2, 3]);
    }
}

#[test]
fn an_invalid_line_among_frames_is_left_out() {
    let input = b"{\"id\":1}\noops {\"id\":9}\n{\"id\":2}\n{\"id\":";
    for size in 1..40 {
        assert_eq!(ids_read(input, size), vec![1, 2]);
    }
}

#[test]
fn an_invalid_line_is_discarded_once_it_ends() {
    let mut buffer = b"oops".to_vec();
    assert_eq!(advance(&mut buffer, ParseOutcome::Invalid), FrameStep::AwaitInput);
    assert_eq!(buffer, b"oops".to_vec());
    buffer.extend_from_slice(b" more\n{}\n");
    assert_eq!(advance(&mut buffer, ParseOutcome::Invalid), FrameStep::Retry);
    assert_eq!(buffer, b"{}\n".to_vec());
}
