//! How requests fail: what a client is told.
use vstd::prelude::*;
use vstd::string::*;

verus! {

/// The kinds of failure that a client can tell apart.
#[derive(Debug, Clone, Copy, PartialEq, Eq, Structural)]
pub enum ErrorCode {
    /// There is no such method.
    MethodNotFound,
    /// The parameters are missing or malformed.
    InvalidParams,
    /// The plugin failed.
    InternalError,
    /// No project root is bound yet.
    PluginNotInitialized,
    /// The project root is missing, malformed, or not the bound one.
    ProjectBindingMismatch,
    /// A lease has another number of workflow ids than entries asked for.
    LeaseWorkflowIdCountMismatch,
    /// The entry is not in the status from which the change starts.
    EntryNotPending,
    /// The entry is not assigned.
    EntryNotAssigned,
    /// The queue could not be reordered.
    ReorderFailed,
}

/// Machine-readable detail of a failure.
#[derive(Debug)]
pub enum ErrorData {
    /// How many workflow ids were expected, and how many came.
    WorkflowIdCount {
        /// Entries asked for.
        expected: usize,
        /// Workflow ids given.
        actual: usize,
    },
    /// The status that the entry has (wire form).
    ActualState(String),
}

/// A failure as it is reported to a client.
#[derive(Debug)]
pub struct RpcError {
    /// Its kind.
    pub code: ErrorCode,
    /// What happened, in words.
    pub message: String,
    /// Detail.
    pub data: Option<ErrorData>,
}

/// What an [`ErrorData`] holds.
pub enum DetailView {
    WorkflowIdCount { expected: nat, actual: nat },
    ActualState(Seq<char>),
}

/// What an [`RpcError`] holds.
pub struct FailureView {
    pub code: ErrorCode,
    pub message: Seq<char>,
    pub data: Option<DetailView>,
}

impl View for ErrorData {
    type V = DetailView;

    open spec fn view(&self) -> DetailView {
        match self {
            ErrorData::WorkflowIdCount { expected, actual } => DetailView::WorkflowIdCount {
                expected: *expected as nat,
                actual: *actual as nat,
            },
            ErrorData::ActualState(state) => DetailView::ActualState(state@),
        }
    }
}

impl View for RpcError {
    type V = FailureView;

    open spec fn view(&self) -> FailureView {
        FailureView {
            code: self.code,
            message: self.message@,
            data: match self.data {
                Some(data) => Some(data@),
                None => None,
            },
        }
    }
}

/// A failure without detail.
pub open spec fn plain_failure(code: ErrorCode, message: Seq<char>) -> FailureView {
    FailureView { code, message, data: None }
}

/// Whether `error` is a failure of the kind `code` without detail.
pub open spec fn reports(error: RpcError, code: ErrorCode, message: Seq<char>) -> bool {
    error@ == plain_failure(code, message)
}

pub(crate) fn failure(code: ErrorCode, message: String) -> (error: RpcError)
    ensures
        reports(error, code, message@),
{
    RpcError { code, message, data: None }
}

/// Malformed or missing parameters.
pub fn invalid_params(message: String) -> (error: RpcError)
    ensures
        reports(error, ErrorCode::InvalidParams, message@),
{
    failure(ErrorCode::InvalidParams, message)
}

/// A failure of the plugin itself while it served `method`.
pub fn internal_error(method: &str, error: &str) -> (report: RpcError)
    ensures
        reports(report, ErrorCode::InternalError, method@ + " failed: "@ + error@),
{
    failure(
        ErrorCode::InternalError,
        method.to_owned().concat(" failed: ").concat(error),
    )
}

/// The queue could not be reordered.
pub fn reorder_failure(error: &str) -> (report: RpcError)
    ensures
        reports(report, ErrorCode::ReorderFailed, "queue/reorder failed: "@ + error@),
{
    failure(ErrorCode::ReorderFailed, "queue/reorder failed: ".to_owned().concat(error))
}

/// There is no method `method`.
pub fn method_not_found(method: &str) -> (report: RpcError)
    ensures
        reports(
            report,
            ErrorCode::MethodNotFound,
            "method '"@ + method@ + "' not implemented by animus-queue-default"@,
        ),
{
    failure(
        ErrorCode::MethodNotFound,
        "method '".to_owned().concat(method).concat(
            "' not implemented by animus-queue-default",
        ),
    )
}

/// The parameters of a request, as far as they could be read.
#[derive(Debug)]
pub enum Params<T> {
    /// There were none.
    Absent,
    /// They could not be read, for the reason given.
    Malformed(String),
    /// They were read.
    Given(T),
}

/// The parameters of a request for `method` that needs some.
pub fn parse_params<T>(params: Params<T>, method: &str) -> (parsed: Result<T, RpcError>)
    ensures
        match params {
            Params::Given(value) => parsed == Ok::<T, RpcError>(value),
            Params::Absent => parsed matches Err(error) && reports(
                error,
                ErrorCode::InvalidParams,
                "missing params for "@ + method@,
            ),
            Params::Malformed(why) => parsed matches Err(error) && reports(
                error,
                ErrorCode::InvalidParams,
                "invalid "@ + method@ + " params: "@ + why@,
            ),
        },
{
    match params {
        Params::Given(value) => Ok(value),
        Params::Absent => Err(
            invalid_params("missing params for ".to_owned().concat(method)),
        ),
        Params::Malformed(why) => Err(
            invalid_params(
                "invalid ".to_owned().concat(method).concat(" params: ").concat(why.as_str()),
            ),
        ),
    }
}

/// The parameters of a request for `method` that may come without, and then
/// stands for `default`.
pub fn parse_optional_params<T>(params: Params<T>, default: T, method: &str) -> (parsed: Result<
    T,
    RpcError,
>)
    ensures
        match params {
            Params::Given(value) => parsed == Ok::<T, RpcError>(value),
            Params::Absent => parsed == Ok::<T, RpcError>(default),
            Params::Malformed(why) => parsed matches Err(error) && reports(
                error,
                ErrorCode::InvalidParams,
                "invalid "@ + method@ + " params: "@ + why@,
            ),
        },
{
    match params {
        Params::Absent => Ok(default),
        other => parse_params(other, method),
    }
}

} // verus!
