//! Auto-forward metadata: what the orchestrator proved before moving a
//! live bidding group to HEAD, and how caller-visible operations report
//! executed or skipped auto-forward decisions.

use vstd::prelude::*;
use vstd::string::*;

use super::commit::CanonicalCommitHash;
use super::error::RuntimeError;
use super::group::WorkerEntry;
use super::mailbox::MessageKind;
use super::state::MailboxMessageView;
use super::worker_id::WorkerId;
use crate::label::Label;
use crate::perspective::name::PerspectiveName;
use crate::sort::TextKey;

verus! {

/// A live worker whose outbox report and worktree agree, ready to be
/// moved onto the new base commit.
#[derive(Debug, Clone)]
pub struct ForwardWorker {
    /// The worker entry.
    pub worker: WorkerEntry,
    /// The head commit that the worker reported and its worktree holds.
    pub reported_head_commit: CanonicalCommitHash,
}

impl TextKey for ForwardWorker {
    open spec fn text_key(&self) -> Seq<char> {
        self.worker.worker_id@
    }

    fn key_text(&self) -> (r: &str) {
        self.worker.worker_id.as_str()
    }
}

/// The description of the repository drift that makes forwarding
/// meaningful.
pub open spec fn change_text(base_changed: bool, boundary_changed: bool) -> Seq<char> {
    if base_changed && !boundary_changed {
        "current HEAD moved ahead of the live candidate group"@
    } else if !base_changed && boundary_changed {
        "current rulebook expanded the live candidate group boundary"@
    } else if base_changed && boundary_changed {
        "current HEAD and rulebook both moved ahead of the live candidate group"@
    } else {
        "the live candidate group already matches current HEAD and rulebook"@
    }
}

/// Describe repository drift that makes forwarding meaningful.
pub fn forward_change_description(base_changed: bool, boundary_changed: bool) -> (s: &'static str)
    ensures
        s@ == change_text(base_changed, boundary_changed),
{
    if base_changed && !boundary_changed {
        "current HEAD moved ahead of the live candidate group"
    } else if !base_changed && boundary_changed {
        "current rulebook expanded the live candidate group boundary"
    } else if base_changed && boundary_changed {
        "current HEAD and rulebook both moved ahead of the live candidate group"
    } else {
        "the live candidate group already matches current HEAD and rulebook"
    }
}

/// Caller action that triggered an auto-forward attempt.
#[derive(Debug, Clone, Copy, PartialEq, Eq, Hash, Structural)]
pub enum AutoForwardTrigger {
    /// The orchestrator is creating another worker for the perspective.
    CreateWorker,
    /// The orchestrator is resolving a blocked worker.
    ResolveWorker,
}

/// The kebab-case spelling of a trigger.
pub open spec fn trigger_text(t: AutoForwardTrigger) -> Seq<char> {
    match t {
        AutoForwardTrigger::CreateWorker => "create-worker"@,
        AutoForwardTrigger::ResolveWorker => "resolve-worker"@,
    }
}

impl AutoForwardTrigger {
    /// Stable kebab-case spelling for user-facing projections.
    pub fn as_str(self) -> (s: &'static str)
        ensures
            s@ == trigger_text(self),
    {
        match self {
            AutoForwardTrigger::CreateWorker => "create-worker",
            AutoForwardTrigger::ResolveWorker => "resolve-worker",
        }
    }
}

/// Proven forward plan for one live candidate group, established before
/// any worktree moves.
#[derive(Debug, Clone, PartialEq, Eq)]
pub struct PerspectiveForwardProof {
    /// Perspective whose live group was proven movable.
    pub perspective: PerspectiveName,
    /// Live workers that move together.
    pub worker_ids: Vec<WorkerId>,
    /// Base commit pinned by the group before replay.
    pub previous_base_commit: CanonicalCommitHash,
    /// Target base commit.
    pub new_base_commit: CanonicalCommitHash,
    /// Whether HEAD moved ahead of the group's base.
    pub base_changed: bool,
    /// Whether the rulebook expanded the group's boundary.
    pub boundary_changed: bool,
}

/// High-level outcome of one auto-forward decision.
#[derive(Debug, Clone, Copy, PartialEq, Eq, Hash, Structural)]
pub enum AutoForwardNoticeKind {
    /// The group was proven movable and forwarded.
    Executed,
    /// The group was left untouched; manual forward remains available.
    Skipped,
}

/// Caller-visible note about one auto-forward decision.
#[derive(Debug, Clone, PartialEq, Eq)]
pub struct AutoForwardNotice {
    /// Whether the forward was executed or skipped.
    pub kind: AutoForwardNoticeKind,
    /// Caller action that triggered the decision.
    pub trigger: AutoForwardTrigger,
    /// Perspective whose live group was considered.
    pub perspective: PerspectiveName,
    /// Whether HEAD moved ahead of the group's base.
    pub base_changed: bool,
    /// Whether the rulebook expanded the group's boundary.
    pub boundary_changed: bool,
    /// Live workers in the considered group.
    pub worker_ids: Vec<WorkerId>,
    /// The proven plan, when the forward was executed.
    pub proof: Option<PerspectiveForwardProof>,
    /// Human-readable explanation.
    pub message: String,
    /// Manual command the user may run when the forward was skipped.
    pub manual_command: Option<String>,
}

/// The message of an executed auto-forward.
pub open spec fn executed_text(
    p: Seq<char>,
    t: AutoForwardTrigger,
    base_changed: bool,
    boundary_changed: bool,
) -> Seq<char> {
    "auto-forwarded perspective `"@ + p + "` before `"@ + trigger_text(t)
        + "` after proving the whole candidate group could move because "@ + change_text(
        base_changed,
        boundary_changed,
    )
}

/// The manual command forwarding perspective `p`.
pub open spec fn manual_forward_text(p: Seq<char>) -> Seq<char> {
    "multorum perspective forward "@ + p
}

impl AutoForwardNotice {
    /// The notice emitted after a successful auto-forward.
    pub fn executed(trigger: AutoForwardTrigger, proof: PerspectiveForwardProof) -> (n: Self)
        ensures
            n.kind == AutoForwardNoticeKind::Executed,
            n.trigger == trigger,
            n.perspective == proof.perspective,
            n.base_changed == proof.base_changed,
            n.boundary_changed == proof.boundary_changed,
            n.worker_ids@ == proof.worker_ids@,
            n.proof == Some(proof),
            n.message@ == executed_text(
                proof.perspective@,
                trigger,
                proof.base_changed,
                proof.boundary_changed,
            ),
            n.manual_command is None,
    {
        let worker_ids = proof.worker_ids.clone();
        assert(worker_ids@ =~= proof.worker_ids@) by {
            assert forall|q: int| 0 <= q < worker_ids.len() implies worker_ids@[q]
                == proof.worker_ids@[q] by {
                assert(cloned::<WorkerId>(proof.worker_ids@[q], worker_ids@[q]));
            }
        }
        let perspective = proof.perspective.dup();
        let mut message = String::from_str("auto-forwarded perspective `");
        message.append(proof.perspective.as_str());
        message.append("` before `");
        message.append(trigger.as_str());
        message.append("` after proving the whole candidate group could move because ");
        message.append(forward_change_description(proof.base_changed, proof.boundary_changed));
        AutoForwardNotice {
            kind: AutoForwardNoticeKind::Executed,
            trigger,
            perspective,
            base_changed: proof.base_changed,
            boundary_changed: proof.boundary_changed,
            worker_ids,
            message,
            proof: Some(proof),
            manual_command: None,
        }
    }

    /// The notice emitted when the forward is left to the user.
    pub fn skipped(
        trigger: AutoForwardTrigger,
        perspective: PerspectiveName,
        base_changed: bool,
        boundary_changed: bool,
        worker_ids: Vec<WorkerId>,
        message: String,
    ) -> (n: Self)
        ensures
            n.kind == AutoForwardNoticeKind::Skipped,
            n.trigger == trigger,
            n.perspective == perspective,
            n.base_changed == base_changed,
            n.boundary_changed == boundary_changed,
            n.worker_ids == worker_ids,
            n.proof is None,
            n.message == message,
            n.manual_command matches Some(c) && c@ == manual_forward_text(perspective@),
    {
        let mut command = String::from_str("multorum perspective forward ");
        command.append(perspective.as_str());
        AutoForwardNotice {
            kind: AutoForwardNoticeKind::Skipped,
            trigger,
            perspective,
            base_changed,
            boundary_changed,
            worker_ids,
            proof: None,
            manual_command: Some(command),
            message,
        }
    }
}

/// Index `i` holds the last report among the messages `ms`.
pub open spec fn last_report_at(ms: Seq<MailboxMessageView>, i: int) -> bool {
    &&& 0 <= i < ms.len()
    &&& ms[i].kind == MessageKind::Report
    &&& forall|j: int| i < j < ms.len() ==> (#[trigger] ms[j]).kind != MessageKind::Report
}

/// Whether some message of `ms` is a report.
pub open spec fn has_report(ms: Seq<MailboxMessageView>) -> bool {
    exists|i: int| 0 <= i < ms.len() && (#[trigger] ms[i]).kind == MessageKind::Report
}

/// The head commit that a blocked worker reported last, from its outbox
/// messages in sequence order: the worker must have published a report,
/// and its latest report must carry a head commit.
pub fn reported_head(
    worker_id: &WorkerId,
    perspective: &PerspectiveName,
    messages: &Vec<MailboxMessageView>,
) -> (r: Result<CanonicalCommitHash, RuntimeError>)
    ensures
        match r {
            Ok(h) => exists|i: int|
                last_report_at(messages@, i) && (#[trigger] messages@[i]).head_commit == Some(h),
            Err(e) => {
                ||| !has_report(messages@) && (e matches RuntimeError::PerspectiveForwardMissingReport {
                    worker_id: w,
                    perspective: p,
                } && w == *worker_id && p == *perspective)
                ||| (exists|i: int|
                    last_report_at(messages@, i) && (#[trigger] messages@[i]).head_commit is None)
                    && (e matches RuntimeError::PerspectiveForwardMissingReportedHead {
                    worker_id: w,
                    perspective: p,
                } && w == *worker_id && p == *perspective)
            },
        },
{
    let mut i = messages.len();
    while i > 0 && messages[i - 1].kind != MessageKind::Report
        invariant
            i <= messages.len(),
            forall|j: int| i <= j < messages.len() ==> (#[trigger] messages@[j]).kind != MessageKind::Report,
        decreases i,
    {
        i = i - 1;
    }
    if i == 0 {
        return Err(
            RuntimeError::PerspectiveForwardMissingReport {
                worker_id: worker_id.clone(),
                perspective: perspective.dup(),
            },
        );
    }
    let k = i - 1;
    assert(last_report_at(messages@, k as int));
    match &messages[k].head_commit {
        Some(h) => Ok(h.clone()),
        None => Err(
            RuntimeError::PerspectiveForwardMissingReportedHead {
                worker_id: worker_id.clone(),
                perspective: perspective.dup(),
            },
        ),
    }
}

/// Check that a blocked worker's worktree still sits at the head commit
/// it reported before its group moves to a new base.
pub fn check_reported_head(
    worker_id: &WorkerId,
    perspective: &PerspectiveName,
    reported: &CanonicalCommitHash,
    current: &CanonicalCommitHash,
) -> (r: Result<(), RuntimeError>)
    ensures
        r is Ok <==> reported@ == current@,
        r matches Err(e) ==> e matches RuntimeError::PerspectiveForwardHeadMismatch {
            worker_id: w,
            perspective: p,
            reported_head_commit: x,
            current_head_commit: y,
        } && w == *worker_id && p == *perspective && x == *reported && y == *current,
{
    if reported.same(current) {
        Ok(())
    } else {
        Err(
            RuntimeError::PerspectiveForwardHeadMismatch {
                worker_id: worker_id.clone(),
                perspective: perspective.dup(),
                reported_head_commit: reported.clone(),
                current_head_commit: current.clone(),
            },
        )
    }
}

} // verus!
