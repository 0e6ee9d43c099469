//! What becomes of a request, told by the request alone.
use std::path::PathBuf;
use vstd::prelude::*;

use crate::dispatch_queue_store::{path_buf_parts, path_buf_text, text_path_parts};
use crate::handlers::{bad_status_text, ids_fit, lease_report, release_report};
use crate::leasing::{lease_error_text, QueueLeaseError};
use crate::mutations::{
    completion_error_text, mutation_error_text, release_error_text, QueueCompletionError,
    QueueMutationError, QueueReleasePendingError,
};
use crate::plugin::{
    advertised, binds, cli_request, is_bound_by, is_extracted, is_flag, is_profile,
    json_member_text, json_string_text, route_of, CliAction, PluginProfile, ProjectBinding, Route,
};
use crate::queue_service::QueueBackend;
use crate::rpc::{DetailView, ErrorCode, RpcError};
use crate::seqs::{first_where, lemma_first_where_is};
use crate::text::decimal;

verus! {

// ------------------------------------------------------- command line

proof fn lemma_flags_differ()
    ensures
        "--manifest"@ != "--help"@,
        "--manifest"@ != "-h"@,
        "-m"@ != "--help"@,
        "-m"@ != "-h"@,
{
    reveal_strlit("--manifest");
    reveal_strlit("-m");
    reveal_strlit("--help");
    reveal_strlit("-h");
    assert("--manifest"@.len() == 10 && "--help"@.len() == 6);
    assert("-m"@.len() == 2 && "-h"@.len() == 2);
    assert("-m"@[1] == 'm' && "-h"@[1] == 'h');
}

/// The first flag on the command line decides, wherever it stands; whatever is
/// no flag is passed over, and without a flag the plugin serves.
pub proof fn law_the_first_flag_decides(args: Seq<Seq<char>>)
    ensures
        ({
            let flag = |arg: Seq<char>|
                arg == "--manifest"@ || arg == "-m"@ || arg == "--help"@ || arg == "-h"@;
            &&& cli_request(args) == CliAction::Serve <==> forall|i: int|
                0 <= i < args.len() ==> !flag(#[trigger] args[i])
            &&& cli_request(args) == CliAction::Manifest <==> exists|i: int|
                {
                    &&& 0 <= i < args.len()
                    &&& #[trigger] args[i] == "--manifest"@ || args[i] == "-m"@
                    &&& forall|j: int| 0 <= j < i ==> !flag(#[trigger] args[j])
                }
            &&& cli_request(args) == CliAction::Help <==> exists|i: int|
                {
                    &&& 0 <= i < args.len()
                    &&& #[trigger] args[i] == "--help"@ || args[i] == "-h"@
                    &&& forall|j: int| 0 <= j < i ==> !flag(#[trigger] args[j])
                }
        }),
{
    lemma_flags_differ();
    let p = is_flag();
    lemma_first_where_is(args, p);
    let i = first_where(args, p);
    if i < args.len() {
        assert(p(args[i]));
    }
    assert forall|j: int| 0 <= j < i implies !p(#[trigger] args[j]) by {}
}

// ------------------------------------------------------------ routing

/// Every method goes to the route that has its name. What is no method of the
/// queue or the plugin is a notification where it starts as the protocol's own
/// do, and else is not found.
pub proof fn law_a_method_goes_where_its_name_says(method: Seq<char>)
    ensures
        route_of(method) == Route::Initialize <==> method == "initialize"@,
        route_of(method) == Route::Ignore <==> method == "initialized"@ || {
            &&& method.len() >= 2
            &&& method[0] == '$'
            &&& method[1] == '/'
            &&& method != "$/ping"@
        },
        route_of(method) == Route::Acknowledge <==> method == "$/ping"@ || method == "shutdown"@,
        route_of(method) == Route::HealthCheck <==> method == "health/check"@,
        route_of(method) == Route::Exit <==> method == "exit"@,
        route_of(method) == Route::Enqueue <==> method == "queue/enqueue"@,
        route_of(method) == Route::List <==> method == "queue/list"@,
        route_of(method) == Route::Lease <==> method == "queue/lease"@,
        route_of(method) == Route::Stats <==> method == "queue/stats"@,
        route_of(method) == Route::Hold <==> method == "queue/hold"@,
        route_of(method) == Route::Release <==> method == "queue/release"@,
        route_of(method) == Route::Drop <==> method == "queue/drop"@,
        route_of(method) == Route::Reorder <==> method == "queue/reorder"@,
        route_of(method) == Route::MarkAssigned <==> method == "queue/mark_assigned"@,
        route_of(method) == Route::Completion <==> method == "queue/completion"@,
        route_of(method) == Route::ReleasePending <==> method == "queue/release_pending"@,
        route_of(method) == Route::NextDeadline <==> method == "queue/next_deadline"@,
{
    reveal_strlit("initialize");
    reveal_strlit("initialized");
    reveal_strlit("$/ping");
    reveal_strlit("health/check");
    reveal_strlit("shutdown");
    reveal_strlit("exit");
    reveal_strlit("queue/enqueue");
    reveal_strlit("queue/list");
    reveal_strlit("queue/lease");
    reveal_strlit("queue/stats");
    reveal_strlit("queue/hold");
    reveal_strlit("queue/release");
    reveal_strlit("queue/drop");
    reveal_strlit("queue/reorder");
    reveal_strlit("queue/mark_assigned");
    reveal_strlit("queue/completion");
    reveal_strlit("queue/release_pending");
    reveal_strlit("queue/next_deadline");
    assert("initialize"@.len() == 10);
    assert("initialized"@.len() == 11);
    assert("$/ping"@.len() == 6);
    assert("health/check"@.len() == 12);
    assert("shutdown"@.len() == 8);
    assert("exit"@.len() == 4);
    assert("queue/enqueue"@.len() == 13);
    assert("queue/list"@.len() == 10);
    assert("queue/lease"@.len() == 11);
    assert("queue/stats"@.len() == 11);
    assert("queue/hold"@.len() == 10);
    assert("queue/release"@.len() == 13);
    assert("queue/drop"@.len() == 10);
    assert("queue/reorder"@.len() == 13);
    assert("queue/mark_assigned"@.len() == 19);
    assert("queue/completion"@.len() == 16);
    assert("queue/release_pending"@.len() == 21);
    assert("queue/next_deadline"@.len() == 19);
    // Names of one length differ in one of these places.
    assert("queue/enqueue"@[6] == 'e');
    assert("queue/release"@[6] == 'r' && "queue/release"@[8] == 'l');
    assert("queue/reorder"@[6] == 'r' && "queue/reorder"@[8] == 'o');
    assert("queue/list"@[6] == 'l');
    assert("queue/hold"@[6] == 'h');
    assert("queue/drop"@[6] == 'd');
    assert("queue/lease"@[6] == 'l');
    assert("queue/stats"@[6] == 's');
    assert("queue/mark_assigned"@[6] == 'm');
    assert("queue/next_deadline"@[6] == 'n');
    assert("initialize"@[0] == 'i');
    assert("initialized"@[0] == 'i');
    assert("$/ping"@[0] == '$' && "$/ping"@[1] == '/');
    assert("health/check"@[0] == 'h');
    assert("shutdown"@[0] == 's');
    assert("exit"@[0] == 'e');
    assert("queue/lease"@[0] == 'q' && "queue/stats"@[0] == 'q' && "queue/list"@[0] == 'q');
    assert("queue/hold"@[0] == 'q' && "queue/drop"@[0] == 'q' && "queue/enqueue"@[0] == 'q');
    assert("queue/release"@[0] == 'q' && "queue/reorder"@[0] == 'q');
    assert("queue/mark_assigned"@[0] == 'q' && "queue/next_deadline"@[0] == 'q');
    assert("queue/completion"@[0] == 'q' && "queue/release_pending"@[0] == 'q');
}

// --------------------------------------------------------- initialize

/// A binding is missing exactly where the extensions have no project binding,
/// and malformed exactly where that has no project root or not as a string;
/// else it is that string.
pub proof fn law_a_binding_is_read_from_the_extensions(
    init_extensions: Seq<char>,
    binding: ProjectBinding,
)
    requires
        binds(init_extensions, binding),
    ensures
        ({
            let object = json_member_text(init_extensions, "project_binding"@);
            let member = json_member_text(object->0, "project_root"@);
            let root = json_string_text(member->0);
            &&& binding is Missing <==> object is None
            &&& binding is Malformed <==> object is Some && (member is None || root is None)
            &&& binding matches ProjectBinding::Root(text) ==> object is Some && member is Some
                && root == Some(text@)
        }),
{
}

/// A root that is named is taken as it is; else the failure tells whether the
/// binding is missing or malformed.
pub proof fn law_a_root_is_taken_as_it_is_named(
    binding: ProjectBinding,
    extracted: Result<PathBuf, RpcError>,
)
    requires
        is_extracted(binding, extracted),
    ensures
        extracted is Ok <==> binding is Root,
        binding matches ProjectBinding::Root(text) ==> {
            &&& path_buf_text(extracted->Ok_0) == Some(text@)
            &&& path_buf_parts(extracted->Ok_0) == text_path_parts(text@)
        },
        extracted matches Err(error) ==> {
            &&& error.code == ErrorCode::ProjectBindingMismatch
            &&& error.data is None
            &&& error.message@ == if binding is Missing {
                "init_extensions.project_binding is required to bind a project root"@
            } else {
                "init_extensions.project_binding.project_root must be a string"@
            }
        },
{
}

/// An initialization succeeds exactly where the binding names a root and no
/// root with other components is bound. It then binds that root; a failure
/// tells what was wrong.
pub proof fn law_an_initialization_binds_the_first_root(
    bound: Option<QueueBackend>,
    binding: ProjectBinding,
    answer: Result<(QueueBackend, PluginProfile), RpcError>,
)
    requires
        is_bound_by(bound, binding, answer),
    ensures
        answer is Ok <==> {
            &&& binding matches ProjectBinding::Root(text)
            &&& bound matches Some(backend) ==> backend.root() == text_path_parts(text@)
        },
        answer matches Ok(made) ==> {
            &&& binding matches ProjectBinding::Root(text)
            &&& made.0.root() == text_path_parts(text@)
            &&& made.0.root_text() == Some(text@)
            &&& is_profile(made.1)
        },
        answer matches Err(error) ==> {
            &&& error.code == ErrorCode::ProjectBindingMismatch
            &&& error.data is None
            &&& error.message@ == match binding {
                ProjectBinding::Missing =>
                    "init_extensions.project_binding is required to bind a project root"@,
                ProjectBinding::Malformed =>
                    "init_extensions.project_binding.project_root must be a string"@,
                ProjectBinding::Root(_) => "another project root is already bound"@,
            }
        },
{
    if binding is Root {
        if answer is Err {
            assert(answer->Err_0@.message == answer->Err_0.message@);
        }
    } else {
        law_a_root_is_taken_as_it_is_named(binding, Err(answer->Err_0));
    }
}

/// What the plugin tells of itself.
pub proof fn law_a_profile_tells_what_the_plugin_does(profile: PluginProfile)
    requires
        is_profile(profile),
    ensures
        profile.name@ == "animus-queue-default"@,
        profile.kind@ == "queue"@,
        profile.description@
            == "Reference queue plugin for Animus v0.5 (file-backed dispatch queue with atomic lease)."@,
        profile.methods@.len() == 11,
        profile.methods@[0]@ == "queue/enqueue"@,
        profile.methods@[1]@ == "queue/list"@,
        profile.methods@[2]@ == "queue/lease"@,
        profile.methods@[3]@ == "queue/stats"@,
        profile.methods@[4]@ == "queue/hold"@,
        profile.methods@[5]@ == "queue/release"@,
        profile.methods@[6]@ == "queue/drop"@,
        profile.methods@[7]@ == "queue/reorder"@,
        profile.methods@[8]@ == "queue/mark_assigned"@,
        profile.methods@[9]@ == "queue/completion"@,
        profile.methods@[10]@ == "health/check"@,
        !profile.streaming && !profile.progress && !profile.cancellation,
        !profile.priority_weighted,
        profile.max_lease_batch == u32::MAX,
{
    let told = profile.methods@.map_values(|method: &'static str| method@);
    assert(told == advertised());
    assert forall|k: int| 0 <= k < told.len() implies #[trigger] told[k]
        == profile.methods@[k]@ by {}
    assert(told.len() == profile.methods@.len());
    assert(told[0] == profile.methods@[0]@);
    assert(told[1] == profile.methods@[1]@);
    assert(told[2] == profile.methods@[2]@);
    assert(told[3] == profile.methods@[3]@);
    assert(told[4] == profile.methods@[4]@);
    assert(told[5] == profile.methods@[5]@);
    assert(told[6] == profile.methods@[6]@);
    assert(told[7] == profile.methods@[7]@);
    assert(told[8] == profile.methods@[8]@);
    assert(told[9] == profile.methods@[9]@);
    assert(told[10] == profile.methods@[10]@);
}

// ------------------------------------------------------------ failures

/// A lease fits exactly where it comes without workflow ids, or with as many as
/// entries are asked for. One that does not is reported with both numbers, in
/// words and in the detail.
pub proof fn law_a_lease_with_too_many_or_too_few_ids_is_reported(
    max: usize,
    ids: Option<Vec<String>>,
    actual: usize,
    why: String,
)
    ensures
        ids_fit(max, ids) <==> ids is None || ids->0@.len() == max,
        lease_error_text(QueueLeaseError::WorkflowIdCountMismatch { expected: max, actual })
            == "workflow_ids length "@ + decimal(actual as nat) + " did not match max "@ + decimal(
            max as nat,
        ),
        lease_error_text(QueueLeaseError::Backend(why)) == why@,
        ({
            let report = lease_report(
                QueueLeaseError::WorkflowIdCountMismatch { expected: max, actual },
            );
            &&& report.code == ErrorCode::LeaseWorkflowIdCountMismatch
            &&& report.message == "workflow_ids.len()="@ + decimal(actual as nat)
                + " did not match max="@ + decimal(max as nat)
            &&& report.data == Some(
                DetailView::WorkflowIdCount { expected: max as nat, actual: actual as nat },
            )
        }),
        ({
            let report = lease_report(QueueLeaseError::Backend(why));
            &&& report.code == ErrorCode::InternalError
            &&& report.message == "queue/lease"@ + " failed: "@ + why@
            &&& report.data is None
        }),
{
}

/// A change that is refused is told with the id of the entry, and a completion
/// that is refused with the status in it.
pub proof fn law_refusals_tell_what_was_asked(id: String, status: String)
    ensures
        mutation_error_text(QueueMutationError::NotPending { entry_id: id }) == "queue entry "@
            + id@ + " is not in the expected pre-mutation status"@,
        completion_error_text(QueueCompletionError::InvalidStatus { status })
            == "invalid completion status: '"@ + status@
            + "' (expected one of: completed, failed, cancelled)"@,
        bad_status_text(status@) == "queue/completion failed: "@ + completion_error_text(
            QueueCompletionError::InvalidStatus { status },
        ),
{
}

/// A lease that is not released is reported with the id in the request and,
/// where the entry is there, with its status.
pub proof fn law_a_lease_that_stays_is_reported(id: String, state: String, why: String)
    ensures
        ({
            let report = release_report(QueueReleasePendingError::NotFound { entry_id: id });
            &&& report.code == ErrorCode::InvalidParams
            &&& report.message == "entry_id not found: "@ + id@
            &&& report.data is None
        }),
        ({
            let report = release_report(
                QueueReleasePendingError::NotAssigned { entry_id: id, actual_state: state },
            );
            &&& report.code == ErrorCode::EntryNotAssigned
            &&& report.message == "entry "@ + id@ + " is in state '"@ + state@
                + "', expected 'assigned'"@
            &&& report.data == Some(DetailView::ActualState(state@))
        }),
        ({
            let report = release_report(QueueReleasePendingError::Backend(why));
            &&& report.code == ErrorCode::InternalError
            &&& report.message == "queue/release_pending"@ + " failed: "@ + why@
            &&& report.data is None
        }),
        release_error_text(QueueReleasePendingError::NotFound { entry_id: id })
            == "entry_id not found: "@ + id@,
        release_error_text(
            QueueReleasePendingError::NotAssigned { entry_id: id, actual_state: state },
        ) == "entry "@ + id@ + " is in state '"@ + state@ + "', expected 'assigned'"@,
        release_error_text(QueueReleasePendingError::Backend(why)) == why@,
{
}

} // verus!
