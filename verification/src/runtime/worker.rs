//! The worker's decisions on its own lifecycle state.

use vstd::prelude::*;

use vstd::string::*;

use super::commit::CanonicalCommitHash;
use super::error::RuntimeError;
use super::group::{state_holds, GroupModel, StateFile, WorkerEntry};
use super::mailbox::MessageKind;
use super::orchestrator::{invalid_state, lemma_reinsert, located, unknown_worker};
use super::state::WorkerState;
use super::worker_id::WorkerId;

verus! {

/// The state after a worker acknowledges an inbox bundle of `kind`: a
/// task, resolve or revise makes it `ACTIVE`; other kinds leave it as it
/// is.
pub open spec fn acked_state(kind: MessageKind, current: WorkerState) -> WorkerState {
    match kind {
        MessageKind::Task | MessageKind::Resolve | MessageKind::Revise => WorkerState::Active,
        _ => current,
    }
}

/// The state after acknowledging an inbox bundle.
pub fn state_after_ack(kind: MessageKind, current: WorkerState) -> (s: WorkerState)
    ensures
        s == acked_state(kind, current),
        kind is Task || kind is Resolve || kind is Revise ==> s is Active,
        kind is Hint || kind is Report || kind is Commit ==> s == current,
{
    match kind {
        MessageKind::Task | MessageKind::Resolve | MessageKind::Revise => WorkerState::Active,
        _ => current,
    }
}

/// Acknowledging a task, resolve or revise bundle leaves the worker
/// `ACTIVE`, whatever state it was in (a committed worker asked to revise
/// may submit again); any other kind leaves its state as it was.
pub proof fn law_ack_activates(kind: MessageKind, current: WorkerState)
    ensures
        (kind is Task || kind is Resolve || kind is Revise) ==> acked_state(kind, current)
            is Active,
        !(kind is Task || kind is Resolve || kind is Revise) ==> acked_state(kind, current)
            == current,
{
}

/// After an acknowledgement is recorded for the worker at `(g, k)`, that
/// worker is `ACTIVE` when the bundle was a task, resolve or revise, and
/// its submitted commit is the one it had; no other worker changes.
pub proof fn law_acknowledged_worker(
    gs: Seq<GroupModel>,
    g: int,
    k: int,
    kind: MessageKind,
)
    requires
        0 <= g < gs.len(),
        0 <= k < gs[g].workers.len(),
    ensures
        ({
            let after = set_worker(
                gs,
                g,
                k,
                acked_state(kind, gs[g].workers[k].state),
                gs[g].workers[k].submitted_head_commit,
            );
            &&& (kind is Task || kind is Resolve || kind is Revise) ==> after[g].workers[k].state
                is Active
            &&& after[g].workers[k].worker_id == gs[g].workers[k].worker_id
            &&& after[g].workers[k].submitted_head_commit == gs[g].workers[k].submitted_head_commit
            &&& forall|j: int| 0 <= j < gs[g].workers.len() && j != k ==> after[g].workers[j]
                == gs[g].workers[j]
            &&& forall|h: int| 0 <= h < gs.len() && h != g ==> after[h] == gs[h]
        }),
{
}

/// The state after a worker publishes a submission (a report, which
/// blocks it, or a commit): only an `ACTIVE` worker may submit.
pub fn submission_state(current: WorkerState, next: WorkerState) -> (r: Result<
    WorkerState,
    RuntimeError,
>)
    ensures
        current is Active ==> r == Ok::<WorkerState, RuntimeError>(next),
        !(current is Active) ==> (r matches Err(e) && invalid_state(
            e,
            "publish worker submission"@,
            "ACTIVE"@,
            current,
        )),
{
    if !current.can_submit() {
        return Err(
            RuntimeError::InvalidState {
                operation: "publish worker submission",
                expected: "ACTIVE",
                actual: current,
            },
        );
    }
    Ok(next)
}

/// The groups with worker `k` of group `g` put in state `s` with the
/// submitted commit `h`.
pub open spec fn set_worker(
    gs: Seq<GroupModel>,
    g: int,
    k: int,
    s: WorkerState,
    h: Option<CanonicalCommitHash>,
) -> Seq<GroupModel> {
    gs.update(
        g,
        GroupModel {
            workers: gs[g].workers.update(
                k,
                WorkerEntry { state: s, submitted_head_commit: h, ..gs[g].workers[k] },
            ),
            ..gs[g]
        },
    )
}

/// Whether `e` reports that the worker runtime at `worktree` is missing.
pub open spec fn missing_runtime(e: RuntimeError, worktree: Seq<char>) -> bool {
    e matches RuntimeError::MissingWorkerRuntime(p) && p@ == worktree
}

impl StateFile {
    /// Put worker `k` of group `g` in state `s` with submitted commit `h`.
    fn set_worker(&mut self, g: usize, k: usize, s: WorkerState, h: Option<CanonicalCommitHash>)
        requires
            old(self).wf(),
            g < old(self).groups@.len(),
            k < old(self).groups@[g as int].workers@.len(),
        ensures
            final(self).wf(),
            final(self)@ == set_worker(old(self)@, g as int, k as int, s, h),
    {
        let ghost gs = self@;
        let ghost before = self.groups@;
        let mut group = self.groups.remove(g);
        assert(group == before[g as int]);
        assert(gs[g as int] == group@);
        let mut e = group.workers[k].clone();
        e.state = s;
        e.submitted_head_commit = h;
        group.workers.set(k, e);
        self.reinsert(g, group);
        proof {
            lemma_reinsert(before, g as int, group);
            assert(self@ =~= set_worker(gs, g as int, k as int, s, h)) by {
                assert forall|q: int| 0 <= q < self@.len() implies #[trigger] self@[q] == set_worker(
                    gs,
                    g as int,
                    k as int,
                    s,
                    h,
                )[q] by {
                    if q != g {
                        assert(self.groups@[q] == before[q]);
                    } else {
                        assert(self@[q] =~= set_worker(gs, g as int, k as int, s, h)[q]);
                    }
                }
            }
            assert forall|q: int| 0 <= q < self.groups@.len() implies (
            #[trigger] self.groups@[q]).wf() by {
                if q != g {
                    assert(self.groups@[q] == before[q]);
                }
            }
        }
    }

    /// Record that the worker running in `worktree` acknowledged an inbox
    /// bundle of `kind`: a task, resolve or revise makes it `ACTIVE`; its
    /// submitted commit stays. The worker must be known and its recorded
    /// worktree must be `worktree`.
    pub fn acknowledge_worker(&mut self, worker_id: &WorkerId, worktree: &str, kind: MessageKind) -> (r:
        Result<(), RuntimeError>)
        requires
            old(self).wf(),
        ensures
            final(self).wf(),
            match r {
                Ok(()) => exists|g: int, k: int|
                    located(old(self)@, worker_id@, g, k) && (#[trigger] old(self)@[g].workers[k]).worktree_path@
                        == worktree@ && final(self)@ == set_worker(
                        old(self)@,
                        g,
                        k,
                        acked_state(kind, old(self)@[g].workers[k].state),
                        old(self)@[g].workers[k].submitted_head_commit,
                    ) && ((kind is Task || kind is Resolve || kind is Revise)
                        ==> final(self)@[g].workers[k].state is Active),
                Err(e) => final(self)@ == old(self)@ && (unknown_worker(e, worker_id@) && !state_holds(
                    old(self)@,
                    worker_id@,
                ) || exists|g: int, k: int|
                    located(old(self)@, worker_id@, g, k) && (#[trigger] old(self)@[g].workers[k]).worktree_path@
                        != worktree@ && missing_runtime(e, worktree@)),
            },
    {
        let ghost gs = self@;
        let (g, k) = match self.worker_location(worker_id) {
            Some(loc) => loc,
            None => {
                return Err(RuntimeError::UnknownWorker(String::from_str(worker_id.as_str())));
            },
        };
        assert(gs[g as int] == self.groups@[g as int]@);
        let entry = &self.groups[g].workers[k];
        if !crate::text::text_eq(entry.worktree_path.as_str(), worktree) {
            return Err(RuntimeError::MissingWorkerRuntime(String::from_str(worktree)));
        }
        let next = state_after_ack(kind, entry.state);
        let head = match &entry.submitted_head_commit {
            Some(h) => Some(h.clone()),
            None => None,
        };
        self.set_worker(g, k, next, head);
        Ok(())
    }

    /// Record a submission by a worker: only an `ACTIVE` worker may
    /// submit; it moves to `next` with the submitted commit `head`.
    pub fn submit_worker(
        &mut self,
        worker_id: &WorkerId,
        next: WorkerState,
        head: Option<CanonicalCommitHash>,
    ) -> (r: Result<(), RuntimeError>)
        requires
            old(self).wf(),
        ensures
            final(self).wf(),
            match r {
                Ok(()) => exists|g: int, k: int|
                    located(old(self)@, worker_id@, g, k) && (#[trigger] old(self)@[g].workers[k]).state is Active
                        && final(self)@ == set_worker(old(self)@, g, k, next, head),
                Err(e) => final(self)@ == old(self)@ && (unknown_worker(e, worker_id@) && !state_holds(
                    old(self)@,
                    worker_id@,
                ) || exists|g: int, k: int|
                    located(old(self)@, worker_id@, g, k) && !((#[trigger] old(self)@[g].workers[k]).state is Active)
                        && invalid_state(
                        e,
                        "publish worker submission"@,
                        "ACTIVE"@,
                        old(self)@[g].workers[k].state,
                    )),
            },
    {
        let ghost gs = self@;
        let (g, k) = match self.worker_location(worker_id) {
            Some(loc) => loc,
            None => {
                return Err(RuntimeError::UnknownWorker(String::from_str(worker_id.as_str())));
            },
        };
        assert(gs[g as int] == self.groups@[g as int]@);
        let current = self.groups[g].workers[k].state;
        let next = submission_state(current, next)?;
        self.set_worker(g, k, next, head);
        Ok(())
    }
}

} // verus!
