//! Worker lifecycle states and the runtime view types shared by the
//! command-line and MCP surfaces.

use vstd::prelude::*;

use super::commit::CanonicalCommitHash;
use super::mailbox::{MailboxDirection, MessageKind, Sequence};
use super::timestamp::Timestamp;
use super::worker_id::WorkerId;
use crate::perspective::name::PerspectiveName;

verus! {

/// Worker lifecycle state.
#[derive(Debug, Clone, Copy, PartialEq, Eq, Hash, Structural)]
pub enum WorkerState {
    /// The worktree and runtime surface exist and the worker may run.
    Active,
    /// The worker is blocked on orchestrator input.
    Blocked,
    /// The worker has submitted a commit and is frozen pending review.
    Committed,
    /// The worker has been merged into the canonical codebase.
    Merged,
    /// The worker has been discarded without integration.
    Discarded,
}

/// The screaming-case name of a state.
pub open spec fn state_name(s: WorkerState) -> Seq<char> {
    match s {
        WorkerState::Active => "ACTIVE"@,
        WorkerState::Blocked => "BLOCKED"@,
        WorkerState::Committed => "COMMITTED"@,
        WorkerState::Merged => "MERGED"@,
        WorkerState::Discarded => "DISCARDED"@,
    }
}

/// Whether a worker in state `s` still holds its bidding-group slot:
/// every state but `MERGED` and `DISCARDED`.
pub open spec fn live(s: WorkerState) -> bool {
    !(s is Merged || s is Discarded)
}

impl WorkerState {
    /// Stable screaming-case name for diagnostics and display.
    pub fn as_str(self) -> (r: &'static str)
        ensures
            r@ == state_name(self),
    {
        match self {
            WorkerState::Active => "ACTIVE",
            WorkerState::Blocked => "BLOCKED",
            WorkerState::Committed => "COMMITTED",
            WorkerState::Merged => "MERGED",
            WorkerState::Discarded => "DISCARDED",
        }
    }

    /// Whether the worker still participates in runtime conflict checks.
    pub fn is_live(self) -> (b: bool)
        ensures
            b == live(self),
    {
        !matches!(self, WorkerState::Merged | WorkerState::Discarded)
    }

    /// Whether the worker may still publish report or commit bundles:
    /// only `ACTIVE` workers may.
    pub fn can_submit(self) -> (b: bool)
        ensures
            b == (self is Active),
    {
        matches!(self, WorkerState::Active)
    }
}

/// Summary of a compiled perspective.
#[derive(Debug, Clone, PartialEq, Eq)]
pub struct PerspectiveSummary {
    /// Perspective identifier.
    pub name: PerspectiveName,
    /// Number of files in the compiled read set.
    pub read_count: usize,
    /// Number of files in the compiled write set.
    pub write_count: usize,
}

/// Result of validating a set of perspectives for conflict-freedom.
#[derive(Debug, Clone, PartialEq, Eq)]
pub struct PerspectiveValidation {
    /// Whether no conflict was found.
    pub ok: bool,
    /// Compiled summaries for the validated perspectives.
    pub perspectives: Vec<PerspectiveSummary>,
    /// Detected boundary conflicts.
    pub conflicts: Vec<PerspectiveConflict>,
}

/// One boundary conflict between two perspectives.
#[derive(Debug, Clone, PartialEq, Eq)]
pub struct PerspectiveConflict {
    /// Perspective on one side of the conflict.
    pub perspective: PerspectiveName,
    /// Perspective on the other side.
    pub blocking_perspective: PerspectiveName,
    /// Description of the overlap relation.
    pub relation: &'static str,
    /// Overlapping files.
    pub files: Vec<String>,
}

/// Summary of one active perspective: a bidding group with live workers.
#[derive(Debug, Clone, PartialEq, Eq)]
pub struct ActivePerspectiveSummary {
    /// Perspective identifier.
    pub perspective: PerspectiveName,
    /// Live workers instantiating this perspective.
    pub worker_ids: Vec<WorkerId>,
    /// Number of files in the materialized read set.
    pub read_count: usize,
    /// Number of files in the materialized write set.
    pub write_count: usize,
}

/// Result of initializing `.multorum/` for a workspace.
#[derive(Debug, Clone, PartialEq, Eq)]
pub struct RulebookInit {
    /// Path to the `.multorum/` directory.
    pub multorum_root: String,
    /// Path to `.multorum/rulebook.toml`.
    pub rulebook_path: String,
    /// Path to `.multorum/.gitignore`.
    pub gitignore_path: String,
    /// Findings worth reporting, such as repaired `.gitignore` entries.
    pub warnings: Vec<String>,
}

/// Result of creating a worker.
#[derive(Debug, Clone, PartialEq, Eq)]
pub struct CreateResult {
    /// New worker identity.
    pub worker_id: WorkerId,
    /// Perspective instantiated by the worker.
    pub perspective: PerspectiveName,
    /// Path to the worker worktree.
    pub worktree_path: String,
    /// Initial state.
    pub state: WorkerState,
    /// Path of the seeded task bundle, if any.
    pub seeded_task_path: Option<String>,
}

/// Result of forwarding one live bidding group to HEAD.
#[derive(Debug, Clone, PartialEq, Eq)]
pub struct PerspectiveForwardResult {
    /// Perspective whose live bidding group moved forward.
    pub perspective: PerspectiveName,
    /// Live workers forwarded together.
    pub worker_ids: Vec<WorkerId>,
    /// Base commit previously pinned by the group.
    pub previous_base_commit: CanonicalCommitHash,
    /// New base commit.
    pub new_base_commit: CanonicalCommitHash,
}

/// Result of discarding a worker.
#[derive(Debug, Clone, PartialEq, Eq)]
pub struct DiscardResult {
    /// Discarded worker identity.
    pub worker_id: WorkerId,
    /// Perspective held by the worker.
    pub perspective: PerspectiveName,
    /// Final worker state.
    pub state: WorkerState,
}

/// Result of deleting one finalized worker workspace.
#[derive(Debug, Clone, PartialEq, Eq)]
pub struct DeleteResult {
    /// Deleted worker identity.
    pub worker_id: WorkerId,
    /// Perspective held by the worker.
    pub perspective: PerspectiveName,
    /// Final worker state preserved after deletion.
    pub state: WorkerState,
    /// Path to the worker workspace.
    pub worktree_path: String,
    /// Whether a managed worktree was removed.
    pub deleted_workspace: bool,
}

/// Result of merging a worker submission.
#[derive(Debug, Clone, PartialEq, Eq)]
pub struct MergeResult {
    /// Merged worker identity.
    pub worker_id: WorkerId,
    /// Perspective held by the merged worker.
    pub perspective: PerspectiveName,
    /// Final worker state.
    pub state: WorkerState,
    /// Checks that executed during integration.
    pub ran_checks: Vec<String>,
    /// Checks skipped on trusted evidence.
    pub skipped_checks: Vec<String>,
}

/// Audit entry recorded after a successful merge.
#[derive(Debug, Clone, PartialEq, Eq)]
pub struct AuditEntry {
    /// Merged worker identity.
    pub worker_id: WorkerId,
    /// Perspective held by the merged worker.
    pub perspective: PerspectiveName,
    /// Commit the worker was pinned to.
    pub base_commit: CanonicalCommitHash,
    /// Integrated head commit.
    pub head_commit: CanonicalCommitHash,
    /// Files changed relative to the base commit.
    pub changed_files: Vec<String>,
    /// Checks that executed during integration.
    pub ran_checks: Vec<String>,
    /// Checks skipped on trusted evidence.
    pub skipped_checks: Vec<String>,
    /// When the merge was recorded.
    pub merged_at: Timestamp,
    /// Orchestrator-supplied rationale body, if any.
    pub rationale_body: Option<String>,
    /// Orchestrator-supplied rationale artifacts.
    pub rationale_artifacts: Vec<String>,
}

/// Orchestrator view of all active work.
#[derive(Debug, Clone, PartialEq, Eq)]
pub struct OrchestratorStatus {
    /// Bidding groups with live workers.
    pub active_perspectives: Vec<ActivePerspectiveSummary>,
    /// Live worker summaries.
    pub workers: Vec<WorkerSummary>,
}

/// Summary of one worker.
#[derive(Debug, Clone, PartialEq, Eq)]
pub struct WorkerSummary {
    /// Worker identity.
    pub worker_id: WorkerId,
    /// Perspective held by the worker.
    pub perspective: PerspectiveName,
    /// Current lifecycle state.
    pub state: WorkerState,
}

/// Detailed orchestrator-side view of one worker.
#[derive(Debug, Clone, PartialEq, Eq)]
pub struct WorkerDetail {
    /// Worker identity.
    pub worker_id: WorkerId,
    /// Perspective held by the worker.
    pub perspective: PerspectiveName,
    /// Current lifecycle state.
    pub state: WorkerState,
    /// Path to the worker worktree.
    pub worktree_path: String,
    /// Base commit pinning the worker's code snapshot.
    pub base_commit: CanonicalCommitHash,
    /// Submitted head commit, when present.
    pub submitted_head_commit: Option<CanonicalCommitHash>,
}

/// Worker-local status.
#[derive(Debug, Clone, PartialEq, Eq)]
pub struct WorkerStatus {
    /// Worker identity.
    pub worker_id: WorkerId,
    /// Perspective held by the worker.
    pub perspective: PerspectiveName,
    /// Current lifecycle state.
    pub state: WorkerState,
}

/// Worker contract view: the base commit and the materialized boundary
/// files.
#[derive(Debug, Clone, PartialEq, Eq)]
pub struct WorkerContractView {
    /// Worker identity.
    pub worker_id: WorkerId,
    /// Perspective instantiated by the worker.
    pub perspective: PerspectiveName,
    /// Base commit pinning the worker's code snapshot.
    pub base_commit: CanonicalCommitHash,
    /// Path to the materialized read set file.
    pub read_set_path: String,
    /// Path to the materialized write set file.
    pub write_set_path: String,
}

/// One mailbox message, for listings.
#[derive(Debug, Clone, PartialEq, Eq)]
pub struct MailboxMessageView {
    /// Worker that owns the mailbox.
    pub worker_id: WorkerId,
    /// Perspective instantiated by the worker.
    pub perspective: PerspectiveName,
    /// Mailbox direction.
    pub direction: MailboxDirection,
    /// Message kind.
    pub kind: MessageKind,
    /// Mailbox-local sequence number.
    pub sequence: Sequence,
    /// Publisher timestamp.
    pub created_at: Timestamp,
    /// Whether the message has been acknowledged.
    pub acknowledged: bool,
    /// Commit hash attached to the message, if any.
    pub head_commit: Option<CanonicalCommitHash>,
    /// Short summary for compact listings.
    pub summary: String,
    /// Path to the bundle directory.
    pub bundle_path: String,
}

/// Ordered transcript of a worker interaction history.
#[derive(Debug, Clone, PartialEq, Eq)]
pub struct TranscriptView {
    /// Messages in transcript order.
    pub messages: Vec<MailboxMessageView>,
}

impl TranscriptView {
    /// An empty transcript.
    pub fn empty() -> (t: Self)
        ensures
            t.messages@.len() == 0,
    {
        TranscriptView { messages: Vec::new() }
    }
}

} // verus!
