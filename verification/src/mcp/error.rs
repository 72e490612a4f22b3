//! MCP-facing error codes.

use vstd::prelude::*;

use crate::runtime::error::{runtime_error_text, RuntimeError};

verus! {

/// Stable MCP-facing error codes.
#[derive(Debug, Clone, Copy, PartialEq, Eq, Structural)]
pub enum McpErrorCode {
    /// Unknown perspective identifier.
    UnknownPerspective,
    /// Unknown worker identifier.
    UnknownWorker,
    /// Requested worker id is already allocated.
    WorkerIdExists,
    /// Invalid state transition for the requested operation.
    InvalidState,
    /// Message bundle not found.
    MessageNotFound,
    /// Message bundle already acknowledged.
    AlreadyAcknowledged,
    /// A rulebook change conflicts with active workers.
    RulebookConflict,
    /// Requested check failed.
    CheckFailed,
    /// Worker touched files outside its write set.
    WriteSetViolation,
    /// Mailbox state was inconsistent.
    MailboxConflict,
    /// Requested worker runtime was missing.
    MissingWorkerRuntime,
    /// The requested operation is not implemented.
    Unimplemented,
    /// Unexpected internal failure.
    Internal,
}

/// The wire text of an error code.
pub open spec fn code_text(c: McpErrorCode) -> Seq<char> {
    match c {
        McpErrorCode::UnknownPerspective => "unknown_perspective"@,
        McpErrorCode::UnknownWorker => "unknown_worker"@,
        McpErrorCode::WorkerIdExists => "worker_id_exists"@,
        McpErrorCode::InvalidState => "invalid_state"@,
        McpErrorCode::MessageNotFound => "message_not_found"@,
        McpErrorCode::AlreadyAcknowledged => "already_acknowledged"@,
        McpErrorCode::RulebookConflict => "rulebook_conflict"@,
        McpErrorCode::CheckFailed => "check_failed"@,
        McpErrorCode::WriteSetViolation => "write_set_violation"@,
        McpErrorCode::MailboxConflict => "mailbox_conflict"@,
        McpErrorCode::MissingWorkerRuntime => "missing_worker_runtime"@,
        McpErrorCode::Unimplemented => "unimplemented"@,
        McpErrorCode::Internal => "internal"@,
    }
}

impl McpErrorCode {
    /// The stable wire representation of the error code.
    pub fn as_str(self) -> (s: &'static str)
        ensures
            s@ == code_text(self),
    {
        match self {
            McpErrorCode::UnknownPerspective => "unknown_perspective",
            McpErrorCode::UnknownWorker => "unknown_worker",
            McpErrorCode::WorkerIdExists => "worker_id_exists",
            McpErrorCode::InvalidState => "invalid_state",
            McpErrorCode::MessageNotFound => "message_not_found",
            McpErrorCode::AlreadyAcknowledged => "already_acknowledged",
            McpErrorCode::RulebookConflict => "rulebook_conflict",
            McpErrorCode::CheckFailed => "check_failed",
            McpErrorCode::WriteSetViolation => "write_set_violation",
            McpErrorCode::MailboxConflict => "mailbox_conflict",
            McpErrorCode::MissingWorkerRuntime => "missing_worker_runtime",
            McpErrorCode::Unimplemented => "unimplemented",
            McpErrorCode::Internal => "internal",
        }
    }
}

/// The code a runtime error is reported with.
pub open spec fn code_of(e: RuntimeError) -> McpErrorCode {
    match e {
        RuntimeError::UnknownPerspective(_) => McpErrorCode::UnknownPerspective,
        RuntimeError::UnknownWorker(_) => McpErrorCode::UnknownWorker,
        RuntimeError::WorkerIdExists(_) => McpErrorCode::WorkerIdExists,
        RuntimeError::UnmanagedProject(_)
        | RuntimeError::AmbiguousRuntimeRole { .. }
        | RuntimeError::RuntimeRoleMismatch { .. }
        | RuntimeError::MissingActiveRulebook
        | RuntimeError::RulebookExists(_)
        | RuntimeError::ExistingWorkerWorkspace { .. }
        | RuntimeError::InvalidState { .. } => McpErrorCode::InvalidState,
        RuntimeError::MessageNotFound => McpErrorCode::MessageNotFound,
        RuntimeError::AlreadyAcknowledged => McpErrorCode::AlreadyAcknowledged,
        RuntimeError::RulebookConflict { .. }
        | RuntimeError::ActivePerspectiveIncompatible { .. } => McpErrorCode::RulebookConflict,
        RuntimeError::ConflictWithActiveBiddingGroup { .. }
        | RuntimeError::BiddingGroupBoundaryMismatch { .. }
        | RuntimeError::PerspectiveForwardRequiresBlocked { .. }
        | RuntimeError::PerspectiveForwardMissingGroup { .. }
        | RuntimeError::PerspectiveForwardMissingReport { .. }
        | RuntimeError::PerspectiveForwardMissingReportedHead { .. }
        | RuntimeError::PerspectiveForwardHeadMismatch { .. }
        | RuntimeError::CheckFailed(_) => McpErrorCode::CheckFailed,
        RuntimeError::WriteSetViolation { .. } => McpErrorCode::WriteSetViolation,
        RuntimeError::MailboxConflict => McpErrorCode::MailboxConflict,
        RuntimeError::MissingWorkerRuntime(_) => McpErrorCode::MissingWorkerRuntime,
        RuntimeError::Unimplemented(_) => McpErrorCode::Unimplemented,
        _ => McpErrorCode::Internal,
    }
}

/// The MCP error code for a runtime error.
pub fn error_code(e: &RuntimeError) -> (c: McpErrorCode)
    ensures
        c == code_of(*e),
{
    match e {
        RuntimeError::UnknownPerspective(_) => McpErrorCode::UnknownPerspective,
        RuntimeError::UnknownWorker(_) => McpErrorCode::UnknownWorker,
        RuntimeError::WorkerIdExists(_) => McpErrorCode::WorkerIdExists,
        RuntimeError::UnmanagedProject(_)
        | RuntimeError::AmbiguousRuntimeRole { .. }
        | RuntimeError::RuntimeRoleMismatch { .. }
        | RuntimeError::MissingActiveRulebook
        | RuntimeError::RulebookExists(_)
        | RuntimeError::ExistingWorkerWorkspace { .. }
        | RuntimeError::InvalidState { .. } => McpErrorCode::InvalidState,
        RuntimeError::MessageNotFound => McpErrorCode::MessageNotFound,
        RuntimeError::AlreadyAcknowledged => McpErrorCode::AlreadyAcknowledged,
        RuntimeError::RulebookConflict { .. }
        | RuntimeError::ActivePerspectiveIncompatible { .. } => McpErrorCode::RulebookConflict,
        RuntimeError::ConflictWithActiveBiddingGroup { .. }
        | RuntimeError::BiddingGroupBoundaryMismatch { .. }
        | RuntimeError::PerspectiveForwardRequiresBlocked { .. }
        | RuntimeError::PerspectiveForwardMissingGroup { .. }
        | RuntimeError::PerspectiveForwardMissingReport { .. }
        | RuntimeError::PerspectiveForwardMissingReportedHead { .. }
        | RuntimeError::PerspectiveForwardHeadMismatch { .. }
        | RuntimeError::CheckFailed(_) => McpErrorCode::CheckFailed,
        RuntimeError::WriteSetViolation { .. } => McpErrorCode::WriteSetViolation,
        RuntimeError::MailboxConflict => McpErrorCode::MailboxConflict,
        RuntimeError::MissingWorkerRuntime(_) => McpErrorCode::MissingWorkerRuntime,
        RuntimeError::Unimplemented(_) => McpErrorCode::Unimplemented,
        _ => McpErrorCode::Internal,
    }
}

/// MCP-facing tool error.
#[derive(Debug, Clone, PartialEq, Eq)]
pub struct McpToolError {
    /// Stable machine-readable error code.
    pub code: McpErrorCode,
    /// Human-readable error message.
    pub message: String,
}

impl McpToolError {
    /// The MCP-facing form of a runtime error: its code and its message.
    pub fn from_runtime(e: RuntimeError) -> (r: Self)
        ensures
            r.code == code_of(e),
            r.message@ == runtime_error_text(e),
    {
        let code = error_code(&e);
        let message = e.message();
        McpToolError { code, message }
    }
}

/// How a failed resource read is reported to an MCP client.
#[derive(Debug, Clone, Copy, PartialEq, Eq, Structural)]
pub enum ResourceErrorClass {
    /// The named resource does not exist.
    NotFound,
    /// The request does not fit the current state.
    InvalidParams,
    /// Unexpected internal failure.
    Internal,
}

/// The class a failed resource read with error code `c` is reported
/// with: unknown names and missing messages or runtimes are not found,
/// internal failures are internal, everything else is a bad request.
pub open spec fn class_of(c: McpErrorCode) -> ResourceErrorClass {
    match c {
        McpErrorCode::UnknownPerspective
        | McpErrorCode::UnknownWorker
        | McpErrorCode::MessageNotFound
        | McpErrorCode::MissingWorkerRuntime => ResourceErrorClass::NotFound,
        McpErrorCode::Internal => ResourceErrorClass::Internal,
        _ => ResourceErrorClass::InvalidParams,
    }
}

/// The class a failed resource read with error code `c` is reported with.
pub fn resource_error_class(c: McpErrorCode) -> (r: ResourceErrorClass)
    ensures
        r == class_of(c),
{
    match c {
        McpErrorCode::UnknownPerspective
        | McpErrorCode::UnknownWorker
        | McpErrorCode::MessageNotFound
        | McpErrorCode::MissingWorkerRuntime => ResourceErrorClass::NotFound,
        McpErrorCode::Internal => ResourceErrorClass::Internal,
        _ => ResourceErrorClass::InvalidParams,
    }
}

} // verus!
