//! The plugin around the queue: command line, routing, and binding to a
//! project root.
use std::path::PathBuf;
use vstd::prelude::*;
use vstd::string::*;

use crate::dispatch_queue_store::path_from_text;
#[allow(unused_imports)]
use crate::dispatch_queue_store::{
    ends_in_name, path_buf_parts, path_buf_text, text_path_parts,
};
use crate::queue_service::QueueBackend;
use crate::rpc::{failure, parse_params, ErrorCode, Params, RpcError};
#[allow(unused_imports)]
use crate::rpc::reports;
#[allow(unused_imports)]
use crate::seqs::{first_where, lemma_first_where};
use crate::text::same_text;
#[allow(unused_imports)]
use crate::text::{opt_text, texts};

verus! {

// ------------------------------------------------------- command line

/// What the command line asks for.
#[derive(Debug, Clone, Copy, PartialEq, Eq, Structural)]
pub enum CliAction {
    /// Print the plugin manifest.
    Manifest,
    /// Print the usage.
    Help,
    /// Serve requests.
    Serve,
}

/// Whether an argument asks for something else than serving requests.
pub open spec fn is_flag() -> spec_fn(Seq<char>) -> bool {
    |arg: Seq<char>| arg == "--manifest"@ || arg == "-m"@ || arg == "--help"@ || arg == "-h"@
}

/// What the arguments ask for: the first flag decides.
pub open spec fn cli_request(args: Seq<Seq<char>>) -> CliAction {
    let i = first_where(args, is_flag());
    if i >= args.len() {
        CliAction::Serve
    } else if args[i] == "--manifest"@ || args[i] == "-m"@ {
        CliAction::Manifest
    } else {
        CliAction::Help
    }
}

/// What the arguments ask for.
pub fn cli_action(args: &[String]) -> (action: CliAction)
    ensures
        action == cli_request(texts(args@)),
{
    let ghost list = texts(args@);
    let mut i: usize = 0;
    while i < args.len()
        invariant
            list == texts(args@),
            i <= args.len(),
            forall|j: int| 0 <= j < i ==> !is_flag()(#[trigger] list[j]),
        decreases args.len() - i,
    {
        let arg = args[i].as_str();
        assert(list[i as int] == arg@);
        if same_text(arg, "--manifest") || same_text(arg, "-m") {
            proof {
                lemma_first_where(list, is_flag(), i as int);
            }
            return CliAction::Manifest;
        }
        if same_text(arg, "--help") || same_text(arg, "-h") {
            proof {
                lemma_first_where(list, is_flag(), i as int);
            }
            return CliAction::Help;
        }
        i += 1;
    }
    proof {
        lemma_first_where(list, is_flag(), i as int);
    }
    CliAction::Serve
}

// ------------------------------------------------------------ routing

/// The methods that the plugin advertises.
pub open spec fn advertised() -> Seq<Seq<char>> {
    seq![
        "queue/enqueue"@,
        "queue/list"@,
        "queue/lease"@,
        "queue/stats"@,
        "queue/hold"@,
        "queue/release"@,
        "queue/drop"@,
        "queue/reorder"@,
        "queue/mark_assigned"@,
        "queue/completion"@,
        "health/check"@,
    ]
}

/// The methods that the plugin advertises.
pub fn queue_methods() -> (methods: Vec<&'static str>)
    ensures
        methods@.map_values(|method: &'static str| method@) == advertised(),
{
    let mut methods: Vec<&'static str> = Vec::new();
    methods.push("queue/enqueue");
    methods.push("queue/list");
    methods.push("queue/lease");
    methods.push("queue/stats");
    methods.push("queue/hold");
    methods.push("queue/release");
    methods.push("queue/drop");
    methods.push("queue/reorder");
    methods.push("queue/mark_assigned");
    methods.push("queue/completion");
    methods.push("health/check");
    assert(methods@.map_values(|method: &'static str| method@) =~= advertised());
    methods
}

/// Where a request goes.
#[derive(Debug, Clone, Copy, PartialEq, Eq, Structural)]
pub enum Route {
    /// Bind a project root.
    Initialize,
    /// A notification; there is no answer.
    Ignore,
    /// Answer with an empty object.
    Acknowledge,
    /// Report health.
    HealthCheck,
    /// End the process.
    Exit,
    /// Append a dispatch.
    Enqueue,
    /// List the queue.
    List,
    /// Lease entries.
    Lease,
    /// Count the queue.
    Stats,
    /// Hold an entry.
    Hold,
    /// Release a held entry.
    Release,
    /// Drop an entry.
    Drop,
    /// Reorder the queue.
    Reorder,
    /// Assign an entry.
    MarkAssigned,
    /// Take note that a workflow ended.
    Completion,
    /// Release a lease.
    ReleasePending,
    /// Tell the next deadline.
    NextDeadline,
    /// There is no such method.
    NotFound,
}

/// Whether a method is one of the protocol's own notifications.
pub open spec fn is_protocol_note(method: Seq<char>) -> bool {
    method.len() >= 2 && method[0] == '$' && method[1] == '/'
}

/// Where a request for `method` goes.
pub open spec fn route_of(method: Seq<char>) -> Route {
    if method == "initialize"@ {
        Route::Initialize
    } else if method == "initialized"@ {
        Route::Ignore
    } else if method == "$/ping"@ {
        Route::Acknowledge
    } else if method == "health/check"@ {
        Route::HealthCheck
    } else if method == "shutdown"@ {
        Route::Acknowledge
    } else if method == "exit"@ {
        Route::Exit
    } else if is_protocol_note(method) {
        Route::Ignore
    } else if method == "queue/enqueue"@ {
        Route::Enqueue
    } else if method == "queue/list"@ {
        Route::List
    } else if method == "queue/lease"@ {
        Route::Lease
    } else if method == "queue/stats"@ {
        Route::Stats
    } else if method == "queue/hold"@ {
        Route::Hold
    } else if method == "queue/release"@ {
        Route::Release
    } else if method == "queue/drop"@ {
        Route::Drop
    } else if method == "queue/reorder"@ {
        Route::Reorder
    } else if method == "queue/mark_assigned"@ {
        Route::MarkAssigned
    } else if method == "queue/completion"@ {
        Route::Completion
    } else if method == "queue/release_pending"@ {
        Route::ReleasePending
    } else if method == "queue/next_deadline"@ {
        Route::NextDeadline
    } else {
        Route::NotFound
    }
}

fn starts_as_note(method: &str) -> (note: bool)
    ensures
        note == is_protocol_note(method@),
{
    method.unicode_len() >= 2 && method.get_char(0) == '$' && method.get_char(1) == '/'
}

/// Where a request for `method` goes.
pub fn route(method: &str) -> (to: Route)
    ensures
        to == route_of(method@),
{
    if same_text(method, "initialize") {
        Route::Initialize
    } else if same_text(method, "initialized") {
        Route::Ignore
    } else if same_text(method, "$/ping") {
        Route::Acknowledge
    } else if same_text(method, "health/check") {
        Route::HealthCheck
    } else if same_text(method, "shutdown") {
        Route::Acknowledge
    } else if same_text(method, "exit") {
        Route::Exit
    } else if starts_as_note(method) {
        Route::Ignore
    } else if same_text(method, "queue/enqueue") {
        Route::Enqueue
    } else if same_text(method, "queue/list") {
        Route::List
    } else if same_text(method, "queue/lease") {
        Route::Lease
    } else if same_text(method, "queue/stats") {
        Route::Stats
    } else if same_text(method, "queue/hold") {
        Route::Hold
    } else if same_text(method, "queue/release") {
        Route::Release
    } else if same_text(method, "queue/drop") {
        Route::Drop
    } else if same_text(method, "queue/reorder") {
        Route::Reorder
    } else if same_text(method, "queue/mark_assigned") {
        Route::MarkAssigned
    } else if same_text(method, "queue/completion") {
        Route::Completion
    } else if same_text(method, "queue/release_pending") {
        Route::ReleasePending
    } else if same_text(method, "queue/next_deadline") {
        Route::NextDeadline
    } else {
        Route::NotFound
    }
}

// --------------------------------------------------------- initialize

/// The text of the member `key` of the JSON object that `text` holds, as
/// `serde_json` writes it.
pub uninterp spec fn json_member_text(text: Seq<char>, key: Seq<char>) -> Option<Seq<char>>;

/// The string that `text` holds in JSON.
pub uninterp spec fn json_string_text(text: Seq<char>) -> Option<Seq<char>>;

/// `serde_json::from_str` reads a JSON value, `Value::get` looks up a member
/// of an object, and its `Display` writes it back. The result depends on the
/// two texts alone.
#[verifier::external_body]
fn json_member(text: &str, key: &str) -> (member: Option<String>)
    ensures
        opt_text(member) == json_member_text(text@, key@),
{
    match serde_json::from_str::<serde_json::Value>(text) {
        Ok(value) => match value.get(key) {
            Some(member) => Some(member.to_string()),
            None => None,
        },
        Err(_) => None,
    }
}

/// `serde_json::from_str` reads a JSON value, and `Value::as_str` is its
/// characters where it is a string. The result depends on the text alone.
#[verifier::external_body]
fn json_string(text: &str) -> (string: Option<String>)
    ensures
        opt_text(string) == json_string_text(text@),
{
    match serde_json::from_str::<serde_json::Value>(text) {
        Ok(value) => match value.as_str() {
            Some(string) => Some(string.to_owned()),
            None => None,
        },
        Err(_) => None,
    }
}

/// What `init_extensions` says of the project root.
#[derive(Debug)]
pub enum ProjectBinding {
    /// There is no project binding.
    Missing,
    /// The binding names no project root, or not as a string.
    Malformed,
    /// The binding names this project root.
    Root(String),
}

/// Whether `binding` is what `init_extensions` says of the project root.
pub open spec fn binds(init_extensions: Seq<char>, binding: ProjectBinding) -> bool {
    match json_member_text(init_extensions, "project_binding"@) {
        None => binding is Missing,
        Some(object) => match json_member_text(object, "project_root"@) {
            None => binding is Malformed,
            Some(member) => match json_string_text(member) {
                None => binding is Malformed,
                Some(root) => binding matches ProjectBinding::Root(text) && text@ == root,
            },
        },
    }
}

/// Reads the project binding out of the `init_extensions` object, which comes
/// as JSON text.
pub fn read_project_binding(init_extensions: &str) -> (binding: ProjectBinding)
    ensures
        binds(init_extensions@, binding),
{
    match json_member(init_extensions, "project_binding") {
        None => ProjectBinding::Missing,
        Some(object) => match json_member(object.as_str(), "project_root") {
            None => ProjectBinding::Malformed,
            Some(member) => match json_string(member.as_str()) {
                None => ProjectBinding::Malformed,
                Some(root) => ProjectBinding::Root(root),
            },
        },
    }
}

/// Whether `extracted` is the project root that `binding` names, or the
/// failure that it names none.
pub open spec fn is_extracted(
    binding: ProjectBinding,
    extracted: Result<PathBuf, RpcError>,
) -> bool {
    match binding {
        ProjectBinding::Missing => extracted matches Err(error) && reports(
            error,
            ErrorCode::ProjectBindingMismatch,
            "init_extensions.project_binding is required to bind a project root"@,
        ),
        ProjectBinding::Malformed => extracted matches Err(error) && reports(
            error,
            ErrorCode::ProjectBindingMismatch,
            "init_extensions.project_binding.project_root must be a string"@,
        ),
        ProjectBinding::Root(text) => {
            &&& extracted is Ok
            &&& path_buf_text(extracted->Ok_0) == Some(text@)
            &&& path_buf_parts(extracted->Ok_0) == text_path_parts(text@)
            &&& ends_in_name(text_path_parts(text@), text@)
        },
    }
}

/// The project root that `binding` names.
pub fn project_root_of(binding: ProjectBinding) -> (extracted: Result<PathBuf, RpcError>)
    ensures
        is_extracted(binding, extracted),
{
    match binding {
        ProjectBinding::Missing => Err(
            failure(
                ErrorCode::ProjectBindingMismatch,
                "init_extensions.project_binding is required to bind a project root".to_owned(),
            ),
        ),
        ProjectBinding::Malformed => Err(
            failure(
                ErrorCode::ProjectBindingMismatch,
                "init_extensions.project_binding.project_root must be a string".to_owned(),
            ),
        ),
        ProjectBinding::Root(text) => Ok(path_from_text(text)),
    }
}

/// The project root that the `init_extensions` object names.
pub fn extract_project_root(init_extensions: &str) -> (extracted: Result<PathBuf, RpcError>)
    ensures
        exists|binding: ProjectBinding|
            binds(init_extensions@, binding) && #[trigger] is_extracted(binding, extracted),
{
    let binding = read_project_binding(init_extensions);
    let ghost read = binding;
    let extracted = project_root_of(binding);
    assert(binds(init_extensions@, read) && is_extracted(read, extracted));
    extracted
}

/// What the plugin tells of itself.
#[derive(Debug)]
pub struct PluginProfile {
    /// Name of the plugin.
    pub name: &'static str,
    /// What kind of plugin it is.
    pub kind: &'static str,
    /// What it is.
    pub description: &'static str,
    /// The methods that it advertises.
    pub methods: Vec<&'static str>,
    /// Whether it streams.
    pub streaming: bool,
    /// Whether it reports progress.
    pub progress: bool,
    /// Whether requests can be cancelled.
    pub cancellation: bool,
    /// Whether leases go by priority.
    pub priority_weighted: bool,
    /// The largest lease batch.
    pub max_lease_batch: u32,
}

/// Whether `profile` is the plugin's: it leases strictly in queue order, in
/// batches of any size, and neither streams nor reports progress nor cancels.
pub open spec fn is_profile(profile: PluginProfile) -> bool {
    &&& profile.name@ == "animus-queue-default"@
    &&& profile.kind@ == "queue"@
    &&& profile.description@
        == "Reference queue plugin for Animus v0.5 (file-backed dispatch queue with atomic lease)."@
    &&& profile.methods@.map_values(|method: &'static str| method@) == advertised()
    &&& !profile.streaming
    &&& !profile.progress
    &&& !profile.cancellation
    &&& !profile.priority_weighted
    &&& profile.max_lease_batch == u32::MAX
}

/// What the plugin tells of itself.
pub fn plugin_profile() -> (profile: PluginProfile)
    ensures
        is_profile(profile),
{
    PluginProfile {
        name: "animus-queue-default",
        kind: "queue",
        description: "Reference queue plugin for Animus v0.5 (file-backed dispatch queue with atomic lease).",
        methods: queue_methods(),
        streaming: false,
        progress: false,
        cancellation: false,
        priority_weighted: false,
        max_lease_batch: u32::MAX,
    }
}

/// Whether `answer` is the answer to an initialization that names the project
/// root as `binding` says, where `bound` is already bound. The first root is
/// bound for good; another one is refused. Roots are the same where their
/// components are.
pub open spec fn is_bound_by(
    bound: Option<QueueBackend>,
    binding: ProjectBinding,
    answer: Result<(QueueBackend, PluginProfile), RpcError>,
) -> bool {
    match binding {
        ProjectBinding::Root(root) => ends_in_name(text_path_parts(root@), root@) && match bound {
            Some(backend) if backend.root() != text_path_parts(root@) => answer matches Err(error)
                && reports(
                error,
                ErrorCode::ProjectBindingMismatch,
                "another project root is already bound"@,
            ),
            _ => {
                &&& answer is Ok
                &&& answer->Ok_0.0.root() == text_path_parts(root@)
                &&& answer->Ok_0.0.root_text() == Some(root@)
                &&& is_profile(answer->Ok_0.1)
            },
        },
        _ => answer is Err && is_extracted(binding, Err(answer->Err_0)),
    }
}

/// Binds the project root that `binding` names, unless another one is bound.
pub fn bind(bound: Option<QueueBackend>, binding: ProjectBinding) -> (answer: Result<
    (QueueBackend, PluginProfile),
    RpcError,
>)
    ensures
        is_bound_by(bound, binding, answer),
{
    let root = match project_root_of(binding) {
        Ok(root) => root,
        Err(error) => {
            return Err(error);
        },
    };
    match bound {
        Some(backend) => {
            if !backend.is_bound_to(&root) {
                return Err(
                    failure(
                        ErrorCode::ProjectBindingMismatch,
                        "another project root is already bound".to_owned(),
                    ),
                );
            }
        },
        None => {},
    }
    Ok((QueueBackend::new(root), plugin_profile()))
}

/// Answers an initialization whose parameters carry `init_extensions` as JSON
/// text.
pub fn handle_initialize(bound: Option<QueueBackend>, params: Params<String>) -> (answer: Result<
    (QueueBackend, PluginProfile),
    RpcError,
>)
    ensures
        match params {
            Params::Given(init_extensions) => exists|binding: ProjectBinding|
                binds(init_extensions@, binding) && #[trigger] is_bound_by(
                    bound,
                    binding,
                    answer,
                ),
            Params::Absent => answer matches Err(error) && reports(
                error,
                ErrorCode::InvalidParams,
                "missing params for initialize"@,
            ),
            Params::Malformed(why) => answer matches Err(error) && reports(
                error,
                ErrorCode::InvalidParams,
                "invalid initialize params: "@ + why@,
            ),
        },
{
    proof {
        reveal_strlit("missing params for ");
        reveal_strlit("missing params for initialize");
        reveal_strlit("initialize");
        reveal_strlit("invalid ");
        reveal_strlit(" params: ");
        reveal_strlit("invalid initialize params: ");
        assert("missing params for "@ + "initialize"@ =~= "missing params for initialize"@);
        assert("invalid "@ + "initialize"@ + " params: "@ =~= "invalid initialize params: "@);
    }
    match parse_params(params, "initialize") {
        Ok(init_extensions) => {
            let binding = read_project_binding(init_extensions.as_str());
            let ghost read = binding;
            let answer = bind(bound, binding);
            assert(binds(init_extensions@, read) && is_bound_by(bound, read, answer));
            answer
        },
        Err(error) => Err(error),
    }
}

} // verus!
