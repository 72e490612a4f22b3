//! Runtime errors for Multorum orchestration services.

use vstd::prelude::*;

use super::commit::CanonicalCommitHash;
use super::state::{state_name, WorkerState};
use super::worker_id::WorkerId;
use crate::bundle::{bundle_error_text, BundleError};
use crate::label::labels_view;
use crate::path_set::strings_view;
use crate::perspective::name::PerspectiveName;
use crate::rulebook::error::{rulebook_error_text, RulebookError};
use crate::text::{join_strings, join_with, text_eq};

verus! {

/// Errors produced by the runtime application layer.
#[derive(Debug)]
pub enum RuntimeError {
    /// The current repository is not managed by Multorum.
    UnmanagedProject(String),
    /// The runtime markers for the current repository disagree.
    AmbiguousRuntimeRole { repo_root: String, details: &'static str },
    /// The caller requested the wrong runtime surface for the repository.
    RuntimeRoleMismatch { expected: &'static str, actual: &'static str, repo_root: String },
    /// No rulebook is active yet.
    MissingActiveRulebook,
    /// The workspace already has a committed rulebook.
    RulebookExists(String),
    /// The requested perspective does not exist.
    UnknownPerspective(String),
    /// The requested worker does not exist in runtime state.
    UnknownWorker(String),
    /// The requested worker id is already held by a live worker.
    WorkerIdExists(WorkerId),
    /// A finalized worker still has a preserved workspace at the managed
    /// path for the requested id.
    ExistingWorkerWorkspace { worker_id: WorkerId, state: WorkerState, worktree_path: String },
    /// The worker state machine does not permit the requested action.
    InvalidState { operation: &'static str, expected: &'static str, actual: WorkerState },
    /// The requested message bundle does not exist.
    MessageNotFound,
    /// The requested message has already been acknowledged.
    AlreadyAcknowledged,
    /// A rulebook change conflicts with live perspectives.
    RulebookConflict { commit: CanonicalCommitHash, blocking_perspectives: Vec<PerspectiveName> },
    /// An active perspective is missing or reduced in the target rulebook.
    ActivePerspectiveIncompatible {
        commit: CanonicalCommitHash,
        perspective: PerspectiveName,
        reason: &'static str,
    },
    /// A candidate bidding group overlaps a live one.
    ConflictWithActiveBiddingGroup {
        perspective: PerspectiveName,
        blocking_perspective: PerspectiveName,
        relation: &'static str,
        files: Vec<String>,
    },
    /// The recompiled boundary of a live group no longer contains the
    /// group's boundary.
    BiddingGroupBoundaryMismatch { perspective: PerspectiveName },
    /// Forwarding requires every live worker of the group to be blocked.
    PerspectiveForwardRequiresBlocked {
        perspective: PerspectiveName,
        workers: Vec<(WorkerId, WorkerState)>,
    },
    /// Forwarding found no live group for the perspective.
    PerspectiveForwardMissingGroup { perspective: PerspectiveName },
    /// A blocked worker published no report.
    PerspectiveForwardMissingReport { worker_id: WorkerId, perspective: PerspectiveName },
    /// A blocked worker's latest report carries no head commit.
    PerspectiveForwardMissingReportedHead { worker_id: WorkerId, perspective: PerspectiveName },
    /// A blocked worker's worktree moved away from its reported head.
    PerspectiveForwardHeadMismatch {
        worker_id: WorkerId,
        perspective: PerspectiveName,
        reported_head_commit: CanonicalCommitHash,
        current_head_commit: CanonicalCommitHash,
    },
    /// A pre-merge or lifecycle check failed.
    CheckFailed(String),
    /// The worker touched files outside its write set.
    WriteSetViolation {
        worker_id: WorkerId,
        perspective: PerspectiveName,
        base_commit: CanonicalCommitHash,
        head_commit: CanonicalCommitHash,
        violations: Vec<String>,
    },
    /// A mailbox operation observed inconsistent state.
    MailboxConflict,
    /// The runtime surface of a worker was not found.
    MissingWorkerRuntime(String),
    /// A committed worker has no submitted head commit recorded.
    MissingSubmittedHeadCommit { worker_id: WorkerId, state: WorkerState },
    /// A worker worktree moved away from the submitted commit.
    WorkerHeadMismatch {
        worker_id: WorkerId,
        submitted_head_commit: CanonicalCommitHash,
        current_head_commit: CanonicalCommitHash,
    },
    /// The submitted head is the base commit: no new work.
    NoNewCommit { worker_id: WorkerId, head_commit: CanonicalCommitHash },
    /// The operation is not implemented.
    Unimplemented(&'static str),
    /// The caller supplied an invalid bundle payload.
    InvalidPayload(&'static str),
    /// A bundle content failure.
    Bundle(BundleError),
    /// Version-control backend failure.
    Vcs { reason: String },
    /// Rulebook loading or compilation failed.
    Rulebook(RulebookError),
    /// Filesystem I/O failure.
    Io { reason: String },
    /// Decoding a stored record failed.
    Decode { reason: String },
    /// Encoding a record failed.
    Encode { reason: String },
}

/// The hint that follows a runtime-role mismatch.
pub open spec fn role_mismatch_hint(expected: Seq<char>, actual: Seq<char>) -> Seq<char> {
    if expected == "worker"@ && actual == "orchestrator"@ {
        "this looks like running `local` command in orchestrator workspace"@
    } else if expected == "orchestrator"@ && actual == "worker"@ {
        "this looks like running `worker` command in worker workspace"@
    } else {
        "the current workspace does not support that runtime operation"@
    }
}

/// The hint that follows a runtime-role mismatch.
fn role_mismatch_hint_text(expected: &str, actual: &str) -> (r: &'static str)
    ensures
        r@ == role_mismatch_hint(expected@, actual@),
{
    if text_eq(expected, "worker") && text_eq(actual, "orchestrator") {
        "this looks like running `local` command in orchestrator workspace"
    } else if text_eq(expected, "orchestrator") && text_eq(actual, "worker") {
        "this looks like running `worker` command in worker workspace"
    } else {
        "the current workspace does not support that runtime operation"
    }
}

/// Perspective names separated by commas.
pub open spec fn perspectives_text(ps: Seq<PerspectiveName>) -> Seq<char> {
    join_with(labels_view(ps), ", "@)
}

/// Paths separated by commas.
pub open spec fn paths_text(ps: Seq<String>) -> Seq<char> {
    join_with(strings_view(ps), ", "@)
}

/// One worker and its state, as `id (STATE)`.
pub open spec fn worker_state_text(w: (WorkerId, WorkerState)) -> Seq<char> {
    w.0@ + " ("@ + state_name(w.1) + ")"@
}

/// Workers with their states, separated by commas.
pub open spec fn worker_states_text(ws: Seq<(WorkerId, WorkerState)>) -> Seq<char> {
    join_with(ws.map_values(|w: (WorkerId, WorkerState)| worker_state_text(w)), ", "@)
}

/// Render perspective names separated by commas.
fn perspectives_message(ps: &Vec<PerspectiveName>) -> (r: String)
    ensures
        r@ == perspectives_text(ps@),
{
    let mut parts: Vec<String> = Vec::new();
    let mut i: usize = 0;
    while i < ps.len()
        invariant
            i <= ps.len(),
            parts@.len() == i,
            parts@.map_values(|p: String| p@) == labels_view(ps@.take(i as int)),
        decreases ps.len() - i,
    {
        let ghost before = parts@;
        let t = ps[i].to_text();
        parts.push(t);
        proof {
            assert(ps@.take(i + 1) =~= ps@.take(i as int).push(ps@[i as int]));
            assert(parts@ =~= before.push(t));
            assert forall|j: int| 0 <= j < i implies parts@[j]@ == ps@[j]@ by {
                assert(before.map_values(|p: String| p@)[j] == labels_view(ps@.take(i as int))[j]);
            }
            assert(parts@.map_values(|p: String| p@) =~= labels_view(ps@.take(i + 1)));
        }
        i = i + 1;
    }
    assert(ps@.take(ps.len() as int) =~= ps@);
    join_strings(&parts, ", ")
}

/// Render paths separated by commas.
fn paths_message(ps: &Vec<String>) -> (r: String)
    ensures
        r@ == paths_text(ps@),
{
    assert(ps@.map_values(|p: String| p@) =~= strings_view(ps@));
    join_strings(ps, ", ")
}

/// Render workers with their states, separated by commas.
fn worker_states_message(ws: &Vec<(WorkerId, WorkerState)>) -> (r: String)
    ensures
        r@ == worker_states_text(ws@),
{
    let ghost want = ws@.map_values(|w: (WorkerId, WorkerState)| worker_state_text(w));
    let mut parts: Vec<String> = Vec::new();
    let mut i: usize = 0;
    while i < ws.len()
        invariant
            i <= ws.len(),
            want == ws@.map_values(|w: (WorkerId, WorkerState)| worker_state_text(w)),
            parts@.len() == i,
            parts@.map_values(|p: String| p@) == want.take(i as int),
        decreases ws.len() - i,
    {
        let mut part = ws[i].0.to_text();
        part.append(" (");
        part.append(ws[i].1.as_str());
        part.append(")");
        assert(part@ == worker_state_text(ws@[i as int]));
        let ghost before = parts@;
        parts.push(part);
        assert(parts@ =~= before.push(part));
        assert(parts@.map_values(|p: String| p@) =~= want.take(i + 1));
        i = i + 1;
    }
    assert(want.take(ws.len() as int) =~= want);
    join_strings(&parts, ", ")
}

/// What a [`RuntimeError`] says.
pub open spec fn runtime_error_text(e: RuntimeError) -> Seq<char> {
    match e {
        RuntimeError::UnmanagedProject(root) =>
            "current repository is not a Multorum-managed project: `"@ + root@ + "`"@,
        RuntimeError::AmbiguousRuntimeRole { repo_root, details } =>
            "cannot determine Multorum runtime role for `"@ + repo_root@ + "`: "@ + details@,
        RuntimeError::RuntimeRoleMismatch { expected, actual, repo_root } => "current repository `"@
            + repo_root@ + "` uses the "@ + actual@ + " runtime, not the "@ + expected@
            + " runtime; "@ + role_mismatch_hint(expected@, actual@),
        RuntimeError::MissingActiveRulebook =>
            "no active rulebook; run `multorum rulebook install` first"@,
        RuntimeError::RulebookExists(path) => "rulebook already exists at "@ + path@,
        RuntimeError::UnknownPerspective(p) => "unknown perspective: "@ + p@,
        RuntimeError::UnknownWorker(w) => "unknown worker: "@ + w@,
        RuntimeError::WorkerIdExists(id) => "worker id already belongs to a live worker: "@ + id@,
        RuntimeError::ExistingWorkerWorkspace { worker_id, state, worktree_path } => "worker `"@
            + worker_id@ + "` already has a preserved "@ + state_name(state) + " workspace at `"@
            + worktree_path@ + "`; delete it first or request overwrite"@,
        RuntimeError::InvalidState { operation, expected, actual } => operation@
            + " requires worker state "@ + expected@ + "; found "@ + state_name(actual),
        RuntimeError::MessageNotFound => "message not found"@,
        RuntimeError::AlreadyAcknowledged => "message already acknowledged"@,
        RuntimeError::RulebookConflict { commit, blocking_perspectives } =>
            "cannot activate rulebook commit `"@ + commit@
            + "` while active perspectives are still live: "@ + perspectives_text(
            blocking_perspectives@,
        ),
        RuntimeError::ActivePerspectiveIncompatible { commit, perspective, reason } =>
            "cannot activate rulebook commit `"@ + commit@ + "`: active perspective `"@
            + perspective@ + "` "@ + reason@,
        RuntimeError::ConflictWithActiveBiddingGroup {
            perspective,
            blocking_perspective,
            relation,
            files,
        } => "cannot create worker for perspective `"@ + perspective@
            + "` because active perspective `"@ + blocking_perspective@ + "` has a "@ + relation@
            + ": "@ + paths_text(files@),
        RuntimeError::BiddingGroupBoundaryMismatch { perspective } =>
            "compiled boundary for perspective `"@ + perspective@
            + "` no longer matches its active bidding group"@,
        RuntimeError::PerspectiveForwardRequiresBlocked { perspective, workers } =>
            "cannot forward perspective `"@ + perspective@
            + "` until every live worker is BLOCKED: "@ + worker_states_text(workers@),
        RuntimeError::PerspectiveForwardMissingGroup { perspective } => "perspective `"@
            + perspective@ + "` has no live bidding group to forward"@,
        RuntimeError::PerspectiveForwardMissingReport { worker_id, perspective } => "worker `"@
            + worker_id@ + "` of perspective `"@ + perspective@ + "` has published no report"@,
        RuntimeError::PerspectiveForwardMissingReportedHead { worker_id, perspective } =>
            "the latest report of worker `"@ + worker_id@ + "` of perspective `"@ + perspective@
            + "` carries no head commit"@,
        RuntimeError::PerspectiveForwardHeadMismatch {
            worker_id,
            perspective,
            reported_head_commit,
            current_head_commit,
        } => "worker `"@ + worker_id@ + "` of perspective `"@ + perspective@
            + "` moved after its report: reported `"@ + reported_head_commit@ + "`, current `"@
            + current_head_commit@ + "`"@,
        RuntimeError::CheckFailed(m) => "check failed: "@ + m@,
        RuntimeError::WriteSetViolation {
            worker_id,
            perspective,
            base_commit,
            head_commit,
            violations,
        } => "write-set violation for worker `"@ + worker_id@ + "` (`"@ + perspective@
            + "`) between `"@ + base_commit@ + "` and `"@ + head_commit@ + "`: "@ + paths_text(
            violations@,
        ),
        RuntimeError::MailboxConflict => "mailbox conflict"@,
        RuntimeError::MissingWorkerRuntime(p) => "worker runtime is missing for perspective: "@
            + p@,
        RuntimeError::MissingSubmittedHeadCommit { worker_id, state } => "worker `"@ + worker_id@
            + "` is in state "@ + state_name(state) + " but has no submitted head commit recorded"@,
        RuntimeError::WorkerHeadMismatch {
            worker_id,
            submitted_head_commit,
            current_head_commit,
        } => "worker `"@ + worker_id@ + "` head changed after submission: submitted `"@
            + submitted_head_commit@ + "`, current `"@ + current_head_commit@ + "`"@,
        RuntimeError::NoNewCommit { worker_id, head_commit } => "worker `"@ + worker_id@
            + "` has no new commits to merge (head `"@ + head_commit@ + "` is the same as base)"@,
        RuntimeError::Unimplemented(what) => "operation is not implemented yet: "@ + what@,
        RuntimeError::InvalidPayload(what) => "invalid bundle payload: "@ + what@,
        RuntimeError::Bundle(b) => bundle_error_text(b),
        RuntimeError::Vcs { reason } => reason@,
        RuntimeError::Rulebook(r) => rulebook_error_text(r),
        RuntimeError::Io { reason } => reason@,
        RuntimeError::Decode { reason } => reason@,
        RuntimeError::Encode { reason } => reason@,
    }
}

/// The concatenation of two texts.
fn cat2(a: &str, b: &str) -> (r: String)
    ensures
        r@ == a@ + b@,
{
    let mut s = String::from_str(a);
    s.append(b);
    s
}

/// The concatenation of three texts.
fn cat3(a: &str, b: &str, c: &str) -> (r: String)
    ensures
        r@ == a@ + b@ + c@,
{
    let mut s = String::from_str(a);
    s.append(b);
    s.append(c);
    s
}

impl RuntimeError {
    /// The message of this error.
    pub fn message(&self) -> (r: String)
        ensures
            r@ == runtime_error_text(*self),
    {
        match self {
            RuntimeError::UnmanagedProject(root) => cat3(
                "current repository is not a Multorum-managed project: `",
                root.as_str(),
                "`",
            ),
            RuntimeError::AmbiguousRuntimeRole { repo_root, details } => {
                let mut s = cat3(
                    "cannot determine Multorum runtime role for `",
                    repo_root.as_str(),
                    "`: ",
                );
                s.append(details);
                s
            },
            RuntimeError::RuntimeRoleMismatch { expected, actual, repo_root } => {
                let mut s = cat3("current repository `", repo_root.as_str(), "` uses the ");
                s.append(actual);
                s.append(" runtime, not the ");
                s.append(expected);
                s.append(" runtime; ");
                s.append(role_mismatch_hint_text(expected, actual));
                s
            },
            RuntimeError::MissingActiveRulebook => String::from_str(
                "no active rulebook; run `multorum rulebook install` first",
            ),
            RuntimeError::RulebookExists(path) => cat2("rulebook already exists at ", path.as_str()),
            RuntimeError::UnknownPerspective(p) => cat2("unknown perspective: ", p.as_str()),
            RuntimeError::UnknownWorker(w) => cat2("unknown worker: ", w.as_str()),
            RuntimeError::WorkerIdExists(id) => cat2("worker id already belongs to a live worker: ", id.as_str()),
            RuntimeError::ExistingWorkerWorkspace { worker_id, state, worktree_path } => {
                let mut s = cat3("worker `", worker_id.as_str(), "` already has a preserved ");
                s.append(state.as_str());
                s.append(" workspace at `");
                s.append(worktree_path.as_str());
                s.append("`; delete it first or request overwrite");
                s
            },
            RuntimeError::InvalidState { operation, expected, actual } => {
                let mut s = cat3(operation, " requires worker state ", expected);
                s.append("; found ");
                s.append(actual.as_str());
                s
            },
            RuntimeError::MessageNotFound => String::from_str("message not found"),
            RuntimeError::AlreadyAcknowledged => String::from_str("message already acknowledged"),
            RuntimeError::RulebookConflict { commit, blocking_perspectives } => {
                let mut s = cat3(
                    "cannot activate rulebook commit `",
                    commit.as_str(),
                    "` while active perspectives are still live: ",
                );
                let list = perspectives_message(blocking_perspectives);
                s.append(list.as_str());
                s
            },
            RuntimeError::ActivePerspectiveIncompatible { commit, perspective, reason } => {
                let mut s = cat3(
                    "cannot activate rulebook commit `",
                    commit.as_str(),
                    "`: active perspective `",
                );
                s.append(perspective.as_str());
                s.append("` ");
                s.append(reason);
                s
            },
            RuntimeError::ConflictWithActiveBiddingGroup {
                perspective,
                blocking_perspective,
                relation,
                files,
            } => {
                let mut s = cat3(
                    "cannot create worker for perspective `",
                    perspective.as_str(),
                    "` because active perspective `",
                );
                s.append(blocking_perspective.as_str());
                s.append("` has a ");
                s.append(relation);
                s.append(": ");
                let list = paths_message(files);
                s.append(list.as_str());
                s
            },
            RuntimeError::BiddingGroupBoundaryMismatch { perspective } => cat3(
                "compiled boundary for perspective `",
                perspective.as_str(),
                "` no longer matches its active bidding group",
            ),
            RuntimeError::PerspectiveForwardRequiresBlocked { perspective, workers } => {
                let mut s = cat3(
                    "cannot forward perspective `",
                    perspective.as_str(),
                    "` until every live worker is BLOCKED: ",
                );
                let list = worker_states_message(workers);
                s.append(list.as_str());
                s
            },
            RuntimeError::PerspectiveForwardMissingGroup { perspective } => cat3(
                "perspective `",
                perspective.as_str(),
                "` has no live bidding group to forward",
            ),
            RuntimeError::PerspectiveForwardMissingReport { worker_id, perspective } => {
                let mut s = cat3("worker `", worker_id.as_str(), "` of perspective `");
                s.append(perspective.as_str());
                s.append("` has published no report");
                s
            },
            RuntimeError::PerspectiveForwardMissingReportedHead { worker_id, perspective } => {
                let mut s = cat3(
                    "the latest report of worker `",
                    worker_id.as_str(),
                    "` of perspective `",
                );
                s.append(perspective.as_str());
                s.append("` carries no head commit");
                s
            },
            RuntimeError::PerspectiveForwardHeadMismatch {
                worker_id,
                perspective,
                reported_head_commit,
                current_head_commit,
            } => {
                let mut s = cat3("worker `", worker_id.as_str(), "` of perspective `");
                s.append(perspective.as_str());
                s.append("` moved after its report: reported `");
                s.append(reported_head_commit.as_str());
                s.append("`, current `");
                s.append(current_head_commit.as_str());
                s.append("`");
                s
            },
            RuntimeError::CheckFailed(m) => cat2("check failed: ", m.as_str()),
            RuntimeError::WriteSetViolation {
                worker_id,
                perspective,
                base_commit,
                head_commit,
                violations,
            } => {
                let mut s = cat3("write-set violation for worker `", worker_id.as_str(), "` (`");
                s.append(perspective.as_str());
                s.append("`) between `");
                s.append(base_commit.as_str());
                s.append("` and `");
                s.append(head_commit.as_str());
                s.append("`: ");
                let list = paths_message(violations);
                s.append(list.as_str());
                s
            },
            RuntimeError::MailboxConflict => String::from_str("mailbox conflict"),
            RuntimeError::MissingWorkerRuntime(p) => cat2("worker runtime is missing for perspective: ", p.as_str()),
            RuntimeError::MissingSubmittedHeadCommit { worker_id, state } => {
                let mut s = cat3("worker `", worker_id.as_str(), "` is in state ");
                s.append(state.as_str());
                s.append(" but has no submitted head commit recorded");
                s
            },
            RuntimeError::WorkerHeadMismatch {
                worker_id,
                submitted_head_commit,
                current_head_commit,
            } => {
                let mut s = cat3(
                    "worker `",
                    worker_id.as_str(),
                    "` head changed after submission: submitted `",
                );
                s.append(submitted_head_commit.as_str());
                s.append("`, current `");
                s.append(current_head_commit.as_str());
                s.append("`");
                s
            },
            RuntimeError::NoNewCommit { worker_id, head_commit } => {
                let mut s = cat3(
                    "worker `",
                    worker_id.as_str(),
                    "` has no new commits to merge (head `",
                );
                s.append(head_commit.as_str());
                s.append("` is the same as base)");
                s
            },
            RuntimeError::Unimplemented(what) => cat2("operation is not implemented yet: ", what),
            RuntimeError::InvalidPayload(what) => cat2("invalid bundle payload: ", what),
            RuntimeError::Bundle(b) => b.message(),
            RuntimeError::Vcs { reason } => reason.clone(),
            RuntimeError::Rulebook(r) => r.message(),
            RuntimeError::Io { reason } => reason.clone(),
            RuntimeError::Decode { reason } => reason.clone(),
            RuntimeError::Encode { reason } => reason.clone(),
        }
    }
}

} // verus!
