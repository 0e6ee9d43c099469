//! Where the queue meets clocks, ids, paths and state files.
use std::path::{Path, PathBuf};

use animus_queue_default::clock::{UtcInstant, LAST_SECOND};
use animus_queue_default::dispatch_queue_state::{
    DispatchQueueEntry, DispatchQueueEntryStatus, DispatchQueueState, ExpiryWindow,
};
use animus_queue_default::dispatch_queue_store::{
    load_queue_state, plan_save, queue_dir_path, queue_lock_path, queue_state_path,
    save_queue_state, LoadAction, LoadEvent, SaveStep,
};
use animus_queue_default::queue_service::QueueBackend;
use animus_queue_default::subject::SubjectDispatch;
use animus_queue_default::text::decimal_text;

fn task(id: &str) -> SubjectDispatch {
    SubjectDispatch {
        subject_key: id.to_string(),
        subject_id: id.to_string(),
        task_id: Some(id.to_string()),
        workflow_ref: "standard".to_string(),
        envelope: "{}".to_string(),
    }
}

fn entry(run_at: Option<&str>, expire_after_secs: Option<u64>) -> DispatchQueueEntry {
    DispatchQueueEntry::from_dispatch(
        task("TASK-1"),
        run_at.map(|text| text.to_string()),
        expire_after_secs,
    )
}

fn is_uuid_v4(id: &str) -> bool {
    let parsed = uuid::Uuid::parse_str(id);
    parsed.is_ok() && parsed.unwrap().get_version_num() == 4 && id == id.to_lowercase()
}

#[test]
fn instants_are_written_as_rfc_3339() {
    let whole = UtcInstant {
        secs: 1_772_924_400,
        nanos: 0,
    };
    assert_eq!(whole.to_rfc3339(), "2026-03-07T23:00:00+00:00");
    let part = UtcInstant {
        secs: -1,
        nanos: 250_000_000,
    };
    assert_eq!(part.to_rfc3339(), "1969-12-31T23:59:59.250+00:00");
}

#[test]
fn instants_are_read_from_rfc_3339() {
    let utc = UtcInstant::parse_rfc3339("2026-03-07T23:00:00Z").expect("utc");
    assert_eq!((utc.secs, utc.nanos), (1_772_924_400, 0));
    let shifted = UtcInstant::parse_rfc3339("2026-03-08T01:30:00.5+02:30").expect("offset");
    assert_eq!((shifted.secs, shifted.nanos), (1_772_924_400, 500_000_000));
    let leap = UtcInstant::parse_rfc3339("2016-12-31T23:59:60Z").expect("leap second");
    assert_eq!((leap.secs, leap.nanos), (1_483_228_799, 1_000_000_000));
    for raw in ["", "2026-03-07", "2026-03-07T23:00:00", "2026-13-07T23:00:00Z", "soon"] {
        assert!(UtcInstant::parse_rfc3339(raw).is_none());
    }
}

#[test]
fn instants_are_read_back_as_they_were_written() {
    for (secs, nanos) in [
        (-62_167_219_200, 0),
        (-1, 1),
        (0, 999_999_999),
        (1_483_228_799, 1_999_999_999),
        (1_772_924_400, 120_000),
        (253_402_300_799, 500_000_000),
    ] {
        let instant = UtcInstant { secs, nanos };
        let read = UtcInstant::parse_rfc3339(&instant.to_rfc3339());
        assert_eq!(read, Some(instant));
    }
    // Beyond the year 9999 there is no RFC 3339 text to read.
    let far = UtcInstant {
        secs: 253_402_300_800,
        nanos: 0,
    };
    assert_eq!(UtcInstant::parse_rfc3339(&far.to_rfc3339()), None);
}

#[test]
fn adding_seconds_leaves_a_leap_second_behind() {
    let start = UtcInstant {
        secs: 1_483_228_799,
        nanos: 1_500_000_000,
    };
    assert_eq!(start.plus_seconds(0), start);
    let later = start.plus_seconds(10);
    assert_eq!((later.secs, later.nanos), (1_483_228_809, 500_000_000));
    let plain = UtcInstant { secs: 5, nanos: 7 }.plus_seconds(3_600);
    assert_eq!((plain.secs, plain.nanos), (3_605, 7));
}

#[test]
fn instants_are_ordered() {
    let a = UtcInstant { secs: 1, nanos: 9 };
    let b = UtcInstant { secs: 2, nanos: 0 };
    let c = UtcInstant { secs: 2, nanos: 1 };
    assert!(a.is_before(b) && b.is_before(c) && a.is_before(c));
    assert!(!b.is_before(a) && !b.is_before(b));
}

#[test]
fn fresh_entries_are_pending_and_identified() {
    let fresh = entry(None, None);
    assert!(is_uuid_v4(&fresh.entry_id));
    assert_eq!(fresh.status, DispatchQueueEntryStatus::Pending);
    assert_eq!(fresh.subject_id.as_deref(), Some("TASK-1"));
    assert_eq!(fresh.task_id, "TASK-1");
    let enqueued_at = fresh.enqueued_at.as_deref().expect("enqueued_at");
    assert!(UtcInstant::parse_rfc3339(enqueued_at).is_some());
    assert!(fresh.run_at.is_none() && fresh.audit_log.is_empty());
    assert_ne!(entry(None, None).entry_id, fresh.entry_id);
    let mut other = task("REQ-1");
    other.task_id = None;
    assert_eq!(DispatchQueueEntry::from_dispatch(other, None, None).task_id, "");
}

#[test]
fn deadlines_add_the_grace_window() {
    let deferred = entry(Some("2026-03-07T23:00:00Z"), Some(90));
    let deadline = deferred.expiry_deadline().expect("deadline");
    assert_eq!(deadline.secs, 1_772_924_490);
    assert_eq!(deferred.expiry_window(), ExpiryWindow::After(deadline));
    assert!(entry(None, Some(90)).expiry_deadline().is_none());
    assert!(entry(Some("2026-03-07T23:00:00Z"), None).expiry_deadline().is_none());
    assert_eq!(entry(Some("soon"), Some(90)).expiry_window(), ExpiryWindow::Never);
}

#[test]
fn a_window_past_the_calendar_never_closes() {
    let forever = entry(Some("2026-03-07T23:00:00Z"), Some(u64::MAX));
    assert_eq!(forever.expiry_window(), ExpiryWindow::PastCalendar);
    let room = (LAST_SECOND - 1_772_924_400) as u64;
    let last = entry(Some("2026-03-07T23:00:00Z"), Some(room));
    assert_eq!(last.expiry_deadline().expect("deadline").secs, LAST_SECOND);
    let over = entry(Some("2026-03-07T23:00:00Z"), Some(room + 1));
    assert_eq!(over.expiry_window(), ExpiryWindow::PastCalendar);
}

#[test]
fn effective_ids_fall_back() {
    let mut entry = entry(None, None);
    entry.subject_id = Some("  KEY \u{a0}".to_string());
    assert_eq!(entry.subject_id_ref(), "KEY");
    entry.subject_id = Some(" \t\u{2003}".to_string());
    assert_eq!(entry.subject_id_ref(), "TASK-1");
    entry.dispatch = None;
    entry.task_id = "OWN".to_string();
    assert_eq!(entry.subject_id_ref(), "OWN");
    assert_eq!(entry.task_id_ref(), Some("OWN"));
    entry.task_id = " \n".to_string();
    assert_eq!(entry.task_id_ref(), None);
    entry.dispatch = Some(task("TASK-2"));
    assert_eq!(entry.task_id_ref(), Some("TASK-2"));
}

#[test]
fn files_live_under_the_project_root() {
    let root = Path::new("/srv/app");
    assert_eq!(queue_dir_path(root), PathBuf::from("/srv/app/.animus"));
    assert_eq!(
        queue_state_path(root),
        PathBuf::from("/srv/app/.animus/queue.json")
    );
    assert_eq!(
        queue_lock_path(root),
        PathBuf::from("/srv/app/.animus/queue.lock")
    );
}

#[test]
fn the_queue_is_bound_to_its_root() {
    let backend = QueueBackend::new(PathBuf::from("/srv/app"));
    assert_eq!(backend.project_root(), Path::new("/srv/app"));
    assert_eq!(backend.project_root().to_str(), Some("/srv/app"));
    assert!(backend.is_bound_to(&PathBuf::from("/srv/app")));
    assert!(backend.is_bound_to(&PathBuf::from("/srv//app/./")));
    assert!(!backend.is_bound_to(&PathBuf::from("/srv/other")));
    assert!(!backend.is_bound_to(&PathBuf::from("srv/app")));
    assert_eq!(backend.clone().project_root(), Path::new("/srv/app"));
}

#[test]
fn an_empty_queue_has_no_state_file() {
    let plan = save_queue_state(Path::new("/srv/app"), &DispatchQueueState::default());
    assert_eq!(plan.dir, PathBuf::from("/srv/app/.animus"));
    assert_eq!(plan.path, PathBuf::from("/srv/app/.animus/queue.json"));
    assert!(matches!(plan.step, SaveStep::Remove));
}

#[test]
fn a_queue_is_published_by_way_of_a_temporary_file() {
    let state = DispatchQueueState {
        entries: vec![entry(None, None)],
    };
    let token = "12345678-1234-4234-8234-123456789abc";
    let plan = plan_save(Path::new("/srv/app"), &state, token);
    match plan.step {
        SaveStep::Publish { staging } => assert_eq!(
            staging,
            PathBuf::from(
                "/srv/app/.animus/queue.json.12345678-1234-4234-8234-123456789abc.tmp"
            )
        ),
        SaveStep::Remove => panic!("expected a temporary file"),
    }
    let fresh = save_queue_state(Path::new("/srv/app"), &state);
    match fresh.step {
        SaveStep::Publish { staging } => {
            let name = staging.file_name().unwrap().to_str().unwrap().to_string();
            assert!(name.starts_with("queue.json.") && name.ends_with(".tmp"));
            assert!(is_uuid_v4(&name[11..47]));
        }
        SaveStep::Remove => panic!("expected a temporary file"),
    }
}

#[test]
fn loading_takes_one_step_at_a_time() {
    assert!(matches!(
        load_queue_state(LoadEvent::Missing),
        LoadAction::Finish(None)
    ));
    assert!(matches!(
        load_queue_state(LoadEvent::Unreadable),
        LoadAction::FailRead
    ));
    for blank in ["", " \n\t"] {
        let action = load_queue_state(LoadEvent::Read(blank.to_string()));
        assert!(
            matches!(action, LoadAction::Finish(Some(state)) if state.entries.is_empty())
        );
    }
    assert!(matches!(
        load_queue_state(LoadEvent::Read(" {}".to_string())),
        LoadAction::ParseState
    ));
    assert!(matches!(
        load_queue_state(LoadEvent::NotState),
        LoadAction::ParseEntries
    ));
    assert!(matches!(
        load_queue_state(LoadEvent::NotEntries),
        LoadAction::FailParse
    ));
    let action = load_queue_state(LoadEvent::Entries(vec![entry(None, None)]));
    assert!(matches!(action, LoadAction::Finish(Some(state)) if state.entries.len() == 1));
    let mut nameless = entry(None, None);
    nameless.entry_id = String::new();
    let action = load_queue_state(LoadEvent::Entries(vec![nameless]));
    assert!(
        matches!(action, LoadAction::Persist(state) if is_uuid_v4(&state.entries[0].entry_id))
    );
}

#[test]
fn the_backend_uses_the_clock_and_new_ids() {
    let backend = QueueBackend::new(PathBuf::from("/srv/app"));
    let mut state = DispatchQueueState::default();
    let enqueued = backend.enqueue(&mut state, task("TASK-1")).reply;
    assert!(is_uuid_v4(&enqueued.entry_id));
    let later = Some("9999-12-31T23:59:59Z".to_string());
    let step = backend.enqueue_scheduled(&mut state, task("TASK-2"), later, None);
    assert!(is_uuid_v4(&step.reply.entry_id) && step.reply.warning.is_none());
    let stats = backend.stats(&state);
    assert_eq!((stats.pending, stats.deferred), (2, 1));
    let deadline = backend.next_deadline(&state).expect("deadline");
    assert_eq!(deadline.to_rfc3339(), "9999-12-31T23:59:59+00:00");

    let leased = backend.lease(&mut state, 5, None, None).expect("lease").reply.leased;
    assert_eq!(leased.len(), 1);
    assert!(is_uuid_v4(leased[0].workflow_id.as_deref().expect("workflow id")));
    let assigned_at = leased[0].assigned_at.as_deref().expect("assigned_at");
    let now = UtcInstant::parse_rfc3339(assigned_at).expect("instant");
    assert!(now.secs > 1_700_000_000);

    let id = step.reply.entry_id;
    let marked = backend.mark_assigned(&mut state, &id, None).expect("mark");
    assert!(marked.persist);
    assert!(is_uuid_v4(state.entries[1].workflow_id.as_deref().expect("workflow id")));
    assert!(backend.release_pending(&mut state, &id, "why").is_ok());
    assert!(backend.hold(&mut state, &id).expect("hold").persist);
    assert!(backend.drop_entry(&mut state, &id).persist);
    assert_eq!(state.entries.len(), 1);
}

#[test]
fn numbers_are_written_in_decimal() {
    assert_eq!(decimal_text(0), "0");
    assert_eq!(decimal_text(7), "7");
    assert_eq!(decimal_text(10), "10");
    assert_eq!(decimal_text(1_234_567_890), "1234567890");
    assert_eq!(decimal_text(usize::MAX), format!("{}", usize::MAX));
}
