//! The plugin around the queue: command line, routing, binding, failures.
use std::path::{Path, PathBuf};

use animus_queue_default::dispatch_queue_state::{DispatchQueueEntryStatus, DispatchQueueState};
use animus_queue_default::dispatch_queue_store::queue_state_path;
use animus_queue_default::handlers::{
    accept, accept_completion, accept_lease, handle_completion, handle_enqueue, handle_hold,
    handle_lease, handle_mark_assigned, handle_release, handle_release_pending, lease_failure,
    release_failure, require_backend,
};
use animus_queue_default::leasing::QueueLeaseError;
use animus_queue_default::mutations::QueueReleasePendingError;
use animus_queue_default::plugin::{
    bind, cli_action, extract_project_root, handle_initialize, plugin_profile, queue_methods,
    read_project_binding, route, CliAction, ProjectBinding, Route,
};
use animus_queue_default::queue_service::QueueBackend;
use animus_queue_default::rpc::{
    internal_error, invalid_params, method_not_found, parse_optional_params, parse_params,
    reorder_failure, ErrorCode, ErrorData, Params, RpcError,
};
use animus_queue_default::subject::SubjectDispatch;

fn backend() -> QueueBackend {
    QueueBackend::new(PathBuf::from("/project"))
}

fn task(id: &str) -> SubjectDispatch {
    SubjectDispatch {
        subject_key: id.to_string(),
        subject_id: id.to_string(),
        task_id: Some(id.to_string()),
        workflow_ref: "standard".to_string(),
        envelope: String::new(),
    }
}

fn strings(list: &[&str]) -> Vec<String> {
    list.iter().map(|s| s.to_string()).collect()
}

fn assert_plain(error: &RpcError, code: ErrorCode, message: &str) {
    assert_eq!(error.code, code);
    assert_eq!(error.message, message);
    assert!(error.data.is_none());
}

#[test]
fn manifest_prints_valid_json() {
    let profile = plugin_profile();
    let mut members = serde_json::Map::new();
    members.insert("name".to_string(), serde_json::Value::from(profile.name));
    members.insert(
        "plugin_kind".to_string(),
        serde_json::Value::from(profile.kind),
    );
    members.insert(
        "capabilities".to_string(),
        serde_json::Value::from(profile.methods),
    );
    let printed = serde_json::Value::Object(members).to_string();

    let manifest: serde_json::Value = serde_json::from_str(&printed).expect("parse manifest JSON");
    assert_eq!(manifest["name"], "animus-queue-default");
    assert_eq!(manifest["plugin_kind"], "queue");
    let methods = manifest["capabilities"]
        .as_array()
        .expect("capabilities array");
    assert!(methods.iter().any(|v| v == "queue/lease"));
    assert!(methods.iter().any(|v| v == "queue/enqueue"));
}

#[test]
fn stdio_initialize_then_enqueue_and_lease() {
    // 1. initialize
    assert_eq!(route("initialize"), Route::Initialize);
    let extensions = "{\"project_binding\":{\"project_root\":\"/tmp/smoke\"}}".to_string();
    let (backend, profile) =
        handle_initialize(None, Params::Given(extensions)).expect("initialize");
    assert_eq!(backend.project_root(), Path::new("/tmp/smoke"));
    assert_eq!(profile.name, "animus-queue-default");

    // 2. enqueue
    assert_eq!(route("queue/enqueue"), Route::Enqueue);
    let mut state = DispatchQueueState::default();
    let enqueued = handle_enqueue(&backend, &mut state, task("TASK-1"), None, None).reply;
    assert!(enqueued.enqueued);

    // 3. lease
    assert_eq!(route("queue/lease"), Route::Lease);
    let leased = handle_lease(
        &backend,
        &mut state,
        1,
        Some(vec!["wf-smoke".to_string()]),
        None,
    )
    .expect("lease")
    .reply
    .leased;
    assert_eq!(leased.len(), 1);
    assert_eq!(leased[0].entry_id, enqueued.entry_id);
    assert_eq!(leased[0].workflow_id.as_deref(), Some("wf-smoke"));
    assert_eq!(leased[0].status, "assigned");

    // 4. exit
    assert_eq!(route("exit"), Route::Exit);
}

#[test]
fn the_first_flag_decides_the_command_line() {
    assert_eq!(cli_action(&[]), CliAction::Serve);
    assert_eq!(cli_action(&strings(&["serve", "-x"])), CliAction::Serve);
    assert_eq!(cli_action(&strings(&["--manifest"])), CliAction::Manifest);
    assert_eq!(cli_action(&strings(&["-m"])), CliAction::Manifest);
    assert_eq!(cli_action(&strings(&["--help"])), CliAction::Help);
    assert_eq!(cli_action(&strings(&["-h"])), CliAction::Help);
    assert_eq!(
        cli_action(&strings(&["x", "-h", "--manifest"])),
        CliAction::Help
    );
    assert_eq!(
        cli_action(&strings(&["x", "-m", "--help"])),
        CliAction::Manifest
    );
}

#[test]
fn methods_are_advertised_in_order() {
    assert_eq!(
        queue_methods(),
        vec![
            "queue/enqueue",
            "queue/list",
            "queue/lease",
            "queue/stats",
            "queue/hold",
            "queue/release",
            "queue/drop",
            "queue/reorder",
            "queue/mark_assigned",
            "queue/completion",
            "health/check",
        ]
    );
}

#[test]
fn every_advertised_method_is_served() {
    for method in queue_methods() {
        assert_ne!(route(method), Route::NotFound);
        assert_ne!(route(method), Route::Ignore);
    }
}

#[test]
fn methods_are_routed() {
    assert_eq!(route("initialized"), Route::Ignore);
    assert_eq!(route("$/ping"), Route::Acknowledge);
    assert_eq!(route("$/cancel"), Route::Ignore);
    assert_eq!(route("$/"), Route::Ignore);
    assert_eq!(route("$"), Route::NotFound);
    assert_eq!(route("/$"), Route::NotFound);
    assert_eq!(route(""), Route::NotFound);
    assert_eq!(route("shutdown"), Route::Acknowledge);
    assert_eq!(route("health/check"), Route::HealthCheck);
    assert_eq!(route("queue/list"), Route::List);
    assert_eq!(route("queue/stats"), Route::Stats);
    assert_eq!(route("queue/hold"), Route::Hold);
    assert_eq!(route("queue/release"), Route::Release);
    assert_eq!(route("queue/drop"), Route::Drop);
    assert_eq!(route("queue/reorder"), Route::Reorder);
    assert_eq!(route("queue/mark_assigned"), Route::MarkAssigned);
    assert_eq!(route("queue/completion"), Route::Completion);
    assert_eq!(route("queue/release_pending"), Route::ReleasePending);
    assert_eq!(route("queue/next_deadline"), Route::NextDeadline);
    assert_eq!(route("queue/unheard_of"), Route::NotFound);
    assert_eq!(route("Queue/list"), Route::NotFound);
}

#[test]
fn the_profile_is_that_of_a_fifo_queue() {
    let profile = plugin_profile();
    assert_eq!(profile.name, "animus-queue-default");
    assert_eq!(
        profile.description,
        "Reference queue plugin for Animus v0.5 (file-backed dispatch queue with atomic lease)."
    );
    assert!(!profile.priority_weighted);
    assert!(!profile.streaming && !profile.progress && !profile.cancellation);
    assert_eq!(profile.max_lease_batch, u32::MAX);
}

#[test]
fn project_bindings_are_read_from_json() {
    let given = "{\"a\":1, \"project_binding\": {\"project_root\": \"/p/\\u0061 b\", \"x\": []}}";
    assert!(
        matches!(read_project_binding(given), ProjectBinding::Root(root) if root == "/p/a b")
    );
    for missing in ["{}", "[]", "null", "not json", "{\"project_binding\":"] {
        assert!(matches!(
            read_project_binding(missing),
            ProjectBinding::Missing
        ));
    }
    for malformed in [
        "{\"project_binding\":{}}",
        "{\"project_binding\":null}",
        "{\"project_binding\":\"/p\"}",
        "{\"project_binding\":{\"project_root\":7}}",
        "{\"project_binding\":{\"project_root\":null}}",
    ] {
        assert!(matches!(
            read_project_binding(malformed),
            ProjectBinding::Malformed
        ));
    }
}

#[test]
fn project_roots_are_extracted() {
    let root = extract_project_root("{\"project_binding\":{\"project_root\":\"/srv/app\"}}");
    assert_eq!(root.expect("root"), PathBuf::from("/srv/app"));
    assert_plain(
        &extract_project_root("{}").unwrap_err(),
        ErrorCode::ProjectBindingMismatch,
        "init_extensions.project_binding is required to bind a project root",
    );
    assert_plain(
        &extract_project_root("{\"project_binding\":{}}").unwrap_err(),
        ErrorCode::ProjectBindingMismatch,
        "init_extensions.project_binding.project_root must be a string",
    );
}

#[test]
fn the_first_root_stays_bound() {
    let (first, _) = bind(None, ProjectBinding::Root("/a".to_string())).expect("first");
    assert_eq!(first.project_root(), Path::new("/a"));
    let (again, _) = bind(
        Some(first.clone()),
        ProjectBinding::Root("/a".to_string()),
    )
    .expect("again");
    assert_eq!(again.project_root(), Path::new("/a"));
    // Another spelling of the same root is the same root.
    for spelling in ["/a/", "/a/.", "//a"] {
        let (same, _) = bind(
            Some(first.clone()),
            ProjectBinding::Root(spelling.to_string()),
        )
        .expect("same root");
        assert_eq!(same.project_root(), Path::new("/a"));
        assert_eq!(
            queue_state_path(same.project_root()),
            PathBuf::from("/a/.animus/queue.json")
        );
    }
    let other = bind(Some(first), ProjectBinding::Root("/b".to_string()));
    assert_plain(
        &other.unwrap_err(),
        ErrorCode::ProjectBindingMismatch,
        "another project root is already bound",
    );
}

#[test]
fn initialize_needs_readable_params() {
    assert_plain(
        &handle_initialize(None, Params::Absent).unwrap_err(),
        ErrorCode::InvalidParams,
        "missing params for initialize",
    );
    assert_plain(
        &handle_initialize(None, Params::Malformed("no map".to_string())).unwrap_err(),
        ErrorCode::InvalidParams,
        "invalid initialize params: no map",
    );
    assert_plain(
        &handle_initialize(None, Params::Given("{}".to_string())).unwrap_err(),
        ErrorCode::ProjectBindingMismatch,
        "init_extensions.project_binding is required to bind a project root",
    );
}

#[test]
fn queue_methods_need_a_bound_root_and_params() {
    assert_plain(
        &require_backend(None).unwrap_err(),
        ErrorCode::PluginNotInitialized,
        "animus-queue-default received a queue/* method before initialize",
    );
    // The missing binding is reported before the missing parameters.
    let unbound = accept(None, Params::<u8>::Absent, "queue/hold");
    assert_eq!(
        unbound.unwrap_err().code,
        ErrorCode::PluginNotInitialized
    );
    let (bound, value) = accept(Some(backend()), Params::Given(7), "queue/hold").expect("accept");
    assert_eq!(bound.project_root(), Path::new("/project"));
    assert_eq!(value, 7);
    assert_plain(
        &accept(Some(backend()), Params::<u8>::Absent, "queue/hold").unwrap_err(),
        ErrorCode::InvalidParams,
        "missing params for queue/hold",
    );
    assert_plain(
        &accept(
            Some(backend()),
            Params::<u8>::Malformed("bad".to_string()),
            "queue/hold",
        )
        .unwrap_err(),
        ErrorCode::InvalidParams,
        "invalid queue/hold params: bad",
    );
}

#[test]
fn params_may_be_optional() {
    assert_eq!(parse_params(Params::Given(3), "m").expect("given"), 3);
    assert_eq!(
        parse_optional_params(Params::Absent, 5, "queue/list").expect("default"),
        5
    );
    assert_eq!(
        parse_optional_params(Params::Given(6), 5, "queue/list").expect("given"),
        6
    );
    assert_plain(
        &parse_optional_params(Params::Malformed("x".to_string()), 5, "queue/list").unwrap_err(),
        ErrorCode::InvalidParams,
        "invalid queue/list params: x",
    );
}

#[test]
fn plain_failures_carry_their_message() {
    assert_plain(
        &internal_error("queue/list", "disk full"),
        ErrorCode::InternalError,
        "queue/list failed: disk full",
    );
    assert_plain(
        &reorder_failure("disk full"),
        ErrorCode::ReorderFailed,
        "queue/reorder failed: disk full",
    );
    assert_plain(
        &method_not_found("queue/x"),
        ErrorCode::MethodNotFound,
        "method 'queue/x' not implemented by animus-queue-default",
    );
    assert_plain(
        &invalid_params("odd".to_string()),
        ErrorCode::InvalidParams,
        "odd",
    );
}

#[test]
fn enqueue_requests_are_never_deduplicated() {
    let queue = backend();
    let mut state = DispatchQueueState::default();
    let first = handle_enqueue(&queue, &mut state, task("TASK-1"), None, None).reply;
    let second = handle_enqueue(&queue, &mut state, task("TASK-1"), None, None).reply;
    assert!(first.enqueued && second.enqueued);
    assert_ne!(first.entry_id, second.entry_id);
    assert!(first.warning.is_none());
    assert_eq!(
        second.warning,
        Some(format!(
            "subject TASK-1 already has queue entry {} (pending)",
            first.entry_id
        ))
    );
    assert_eq!(state.entries.len(), 2);
}

#[test]
fn a_lease_with_the_wrong_number_of_ids_is_reported() {
    let mut state = DispatchQueueState::default();
    backend().enqueue(&mut state, task("TASK-1"));
    let error = handle_lease(&backend(), &mut state, 12, Some(strings(&["a", "b"])), None)
        .unwrap_err();
    assert_eq!(error.code, ErrorCode::LeaseWorkflowIdCountMismatch);
    assert_eq!(error.message, "workflow_ids.len()=2 did not match max=12");
    assert!(matches!(
        error.data,
        Some(ErrorData::WorkflowIdCount {
            expected: 12,
            actual: 2
        })
    ));
    assert_eq!(state.entries[0].status, DispatchQueueEntryStatus::Pending);

    assert!(accept_lease(1, &Some(strings(&["a"]))).expect("load"));
    assert!(accept_lease(3, &None).expect("load"));
    assert!(!accept_lease(0, &None).expect("no load"));
    assert!(accept_lease(0, &Some(strings(&["a"]))).is_err());

    let text = QueueLeaseError::WorkflowIdCountMismatch {
        expected: 10,
        actual: 1024,
    }
    .message();
    assert_eq!(text, "workflow_ids length 1024 did not match max 10");
    let broken = lease_failure(QueueLeaseError::Backend("no lock".to_string()));
    assert_plain(
        &broken,
        ErrorCode::InternalError,
        "queue/lease failed: no lock",
    );
}

#[test]
fn changes_from_the_wrong_status_are_reported() {
    let queue = backend();
    let mut state = DispatchQueueState::default();
    let id = queue.enqueue(&mut state, task("TASK-1")).reply.entry_id;
    let assigned = handle_mark_assigned(&queue, &mut state, &id, Some("wf".to_string()));
    assert!(assigned.expect("assign").reply.changed);
    let message = format!(
        "queue entry {} is not in the expected pre-mutation status",
        id
    );
    assert_plain(
        &handle_hold(&queue, &mut state, &id).unwrap_err(),
        ErrorCode::EntryNotPending,
        &message,
    );
    assert_plain(
        &handle_release(&queue, &mut state, &id).unwrap_err(),
        ErrorCode::EntryNotPending,
        &message,
    );
    let unknown = handle_hold(&queue, &mut state, "nobody").expect("unknown");
    assert!(unknown.reply.not_found && !unknown.reply.changed && !unknown.persist);
}

#[test]
fn a_held_entry_cannot_be_assigned() {
    let queue = backend();
    let mut state = DispatchQueueState::default();
    let id = queue.enqueue(&mut state, task("TASK-1")).reply.entry_id;
    assert!(handle_hold(&queue, &mut state, &id).expect("hold").persist);
    let refused = handle_mark_assigned(&queue, &mut state, &id, None);
    assert_eq!(refused.unwrap_err().code, ErrorCode::EntryNotPending);
    assert!(handle_release(&queue, &mut state, &id).expect("release").persist);
}

#[test]
fn completions_need_a_terminal_status() {
    let queue = backend();
    let mut state = DispatchQueueState::default();
    let error = handle_completion(&queue, &mut state, "x", "running", None, None).unwrap_err();
    let message = "queue/completion failed: invalid completion status: 'running' (expected one of: completed, failed, cancelled)";
    assert_plain(&error, ErrorCode::InvalidParams, message);
    assert_plain(
        &accept_completion("running").unwrap_err(),
        ErrorCode::InvalidParams,
        message,
    );
    for status in ["completed", "failed", "cancelled"] {
        assert!(accept_completion(status).is_ok());
        let step = handle_completion(&queue, &mut state, "x", status, None, None).expect("frame");
        assert!(step.reply.not_found && !step.persist);
    }
}

#[test]
fn leases_that_cannot_be_released_are_reported() {
    let queue = backend();
    let mut state = DispatchQueueState::default();
    assert_plain(
        &handle_release_pending(&queue, &mut state, "gone", "why").unwrap_err(),
        ErrorCode::InvalidParams,
        "entry_id not found: gone",
    );
    let id = queue.enqueue(&mut state, task("TASK-1")).reply.entry_id;
    let error = handle_release_pending(&queue, &mut state, &id, "why").unwrap_err();
    assert_eq!(error.code, ErrorCode::EntryNotAssigned);
    assert_eq!(
        error.message,
        format!("entry {} is in state 'pending', expected 'assigned'", id)
    );
    assert!(matches!(error.data, Some(ErrorData::ActualState(state)) if state == "pending"));

    handle_lease(&queue, &mut state, 1, None, None).expect("lease");
    let released = handle_release_pending(&queue, &mut state, &id, "host busy").expect("release");
    assert_eq!(released.entry_id, id);
    assert_eq!(released.status, "pending");
    assert_plain(
        &release_failure(QueueReleasePendingError::Backend("no lock".to_string())),
        ErrorCode::InternalError,
        "queue/release_pending failed: no lock",
    );
    assert_eq!(
        QueueReleasePendingError::Backend("no lock".to_string()).message(),
        "no lock"
    );
}
