//! Bidding groups and the orchestrator's joined runtime state.
//!
//! A group forms when the first worker for a perspective is created. Its
//! base commit and boundary are fixed at formation; later workers for
//! the same perspective join it. When no live worker is left the
//! boundary is cleared; the group stays until its last worker entry is
//! removed.

use vstd::prelude::*;

use super::commit::CanonicalCommitHash;
use super::state::{live, WorkerState};
use super::worker_id::WorkerId;
use crate::label::Label;
use crate::path_set::PathSet;
use crate::perspective::name::PerspectiveName;

verus! {

/// One worker within a bidding group.
#[derive(Debug, PartialEq, Eq)]
pub struct WorkerEntry {
    /// Unique worker identity.
    pub worker_id: WorkerId,
    /// Current lifecycle state.
    pub state: WorkerState,
    /// Path to the managed worktree.
    pub worktree_path: String,
    /// Submitted worker commit, while the worker is `COMMITTED`.
    pub submitted_head_commit: Option<CanonicalCommitHash>,
}

impl Clone for WorkerEntry {
    /// A copy with the same fields.
    fn clone(&self) -> (r: Self)
        ensures
            r == *self,
    {
        WorkerEntry {
            worker_id: self.worker_id.clone(),
            state: self.state,
            worktree_path: self.worktree_path.clone(),
            submitted_head_commit: match &self.submitted_head_commit {
                Some(h) => Some(h.clone()),
                None => None,
            },
        }
    }
}

/// The model of a bidding group: its perspective, base commit, boundary
/// as sets of paths, and member workers.
#[verifier::ext_equal]
pub struct GroupModel {
    pub perspective: PerspectiveName,
    pub base_commit: CanonicalCommitHash,
    pub read: Set<Seq<char>>,
    pub write: Set<Seq<char>>,
    pub workers: Seq<WorkerEntry>,
}

/// One bidding group with its boundary and member workers.
#[derive(Debug)]
pub struct BiddingGroupRecord {
    /// Perspective governing this group.
    pub perspective: PerspectiveName,
    /// Base commit pinning the group's code snapshot.
    pub base_commit: CanonicalCommitHash,
    /// Read set fixed at group formation.
    pub read_set: PathSet,
    /// Write set fixed at group formation.
    pub write_set: PathSet,
    /// Workers in this group.
    pub workers: Vec<WorkerEntry>,
}

impl View for BiddingGroupRecord {
    type V = GroupModel;

    open spec fn view(&self) -> GroupModel {
        GroupModel {
            perspective: self.perspective,
            base_commit: self.base_commit,
            read: self.read_set.set(),
            write: self.write_set.set(),
            workers: self.workers@,
        }
    }
}

/// Whether some worker of `ws` is live.
pub open spec fn has_live(ws: Seq<WorkerEntry>) -> bool {
    exists|i: int| 0 <= i < ws.len() && live((#[trigger] ws[i]).state)
}

/// Whether a group has at least one live worker.
pub open spec fn group_live(g: GroupModel) -> bool {
    has_live(g.workers)
}

/// Whether some worker of `ws` has the id text `id`.
pub open spec fn holds_worker(ws: Seq<WorkerEntry>, id: Seq<char>) -> bool {
    exists|i: int| 0 <= i < ws.len() && (#[trigger] ws[i]).worker_id@ == id
}

/// Index `i` is the first worker of `ws` with the id text `id`.
pub open spec fn worker_at(ws: Seq<WorkerEntry>, id: Seq<char>, i: int) -> bool {
    &&& 0 <= i < ws.len()
    &&& ws[i].worker_id@ == id
    &&& forall|j: int| 0 <= j < i ==> (#[trigger] ws[j]).worker_id@ != id
}

/// The predicate "has an id text other than `id`".
pub open spec fn other_than(id: Seq<char>) -> spec_fn(WorkerEntry) -> bool {
    |w: WorkerEntry| w.worker_id@ != id
}

/// The workers of `ws` other than those with the id text `id`.
pub open spec fn without_worker(ws: Seq<WorkerEntry>, id: Seq<char>) -> Seq<WorkerEntry> {
    ws.filter(other_than(id))
}

/// The group with its boundary cleared.
pub open spec fn cleared(g: GroupModel) -> GroupModel {
    GroupModel { read: Set::empty(), write: Set::empty(), ..g }
}

/// A worker entry finalized in state `s`, its submitted commit cleared.
pub open spec fn retired(e: WorkerEntry, s: WorkerState) -> WorkerEntry {
    WorkerEntry { state: s, submitted_head_commit: None, ..e }
}

/// A group whose boundary is cleared once it has no live worker left.
pub open spec fn settle(g: GroupModel) -> GroupModel {
    if group_live(g) {
        g
    } else {
        cleared(g)
    }
}

/// The entry after a merge of worker `id` in its group: the merged
/// worker becomes `MERGED`, every other live worker is discarded.
pub open spec fn merge_entry(e: WorkerEntry, id: Seq<char>) -> WorkerEntry {
    if e.worker_id@ == id {
        WorkerEntry { state: WorkerState::Merged, ..e }
    } else if live(e.state) {
        retired(e, WorkerState::Discarded)
    } else {
        e
    }
}

/// The state after worker `k` of group `g` is discarded.
pub open spec fn discarded(gs: Seq<GroupModel>, g: int, k: int) -> Seq<GroupModel> {
    gs.update(
        g,
        settle(
            GroupModel {
                workers: gs[g].workers.update(k, retired(gs[g].workers[k], WorkerState::Discarded)),
                ..gs[g]
            },
        ),
    )
}

/// The state after worker `id` of group `g` is merged.
pub open spec fn merged(gs: Seq<GroupModel>, g: int, id: Seq<char>) -> Seq<GroupModel> {
    gs.update(
        g,
        cleared(
            GroupModel { workers: gs[g].workers.map_values(|e: WorkerEntry| merge_entry(e, id)), ..gs[g] },
        ),
    )
}

/// The state after the entry of worker `id` is deleted from group `g`.
pub open spec fn deleted(gs: Seq<GroupModel>, g: int, id: Seq<char>) -> Seq<GroupModel> {
    gc(gs.update(g, GroupModel { workers: without_worker(gs[g].workers, id), ..gs[g] }))
}

/// The state after group `g` moves to a new base commit and boundary.
pub open spec fn forwarded(
    gs: Seq<GroupModel>,
    g: int,
    base: CanonicalCommitHash,
    read: Set<Seq<char>>,
    write: Set<Seq<char>>,
) -> Seq<GroupModel> {
    gs.update(g, GroupModel { base_commit: base, read, write, ..gs[g] })
}

/// Taking one more element of a sequence extends its filter by that
/// element exactly when the element passes.
pub proof fn lemma_filter_take_push<A>(s: Seq<A>, p: spec_fn(A) -> bool, k: int)
    requires
        0 <= k < s.len(),
    ensures
        s.take(k + 1).filter(p) == (if p(s[k]) {
            s.take(k).filter(p).push(s[k])
        } else {
            s.take(k).filter(p)
        }),
{
    reveal(Seq::filter);
    assert(s.take(k + 1).drop_last() =~= s.take(k));
}

impl BiddingGroupRecord {
    /// Both boundary sets hold each path once.
    pub open spec fn wf(&self) -> bool {
        self.read_set.wf() && self.write_set.wf()
    }

    /// Whether the group has at least one live (non-finalized) worker.
    pub fn has_live_workers(&self) -> (b: bool)
        ensures
            b == group_live(self@),
    {
        let mut i: usize = 0;
        while i < self.workers.len()
            invariant
                i <= self.workers.len(),
                forall|j: int| 0 <= j < i ==> !live((#[trigger] self.workers@[j]).state),
            decreases self.workers.len() - i,
        {
            if self.workers[i].state.is_live() {
                assert(live(self.workers@[i as int].state));
                return true;
            }
            i = i + 1;
        }
        false
    }

    /// The position of the first worker with the id of `worker_id`.
    pub fn worker_index(&self, worker_id: &WorkerId) -> (r: Option<usize>)
        ensures
            match r {
                Some(i) => worker_at(self.workers@, worker_id@, i as int),
                None => !holds_worker(self.workers@, worker_id@),
            },
    {
        let mut i: usize = 0;
        while i < self.workers.len()
            invariant
                i <= self.workers.len(),
                forall|j: int| 0 <= j < i ==> (#[trigger] self.workers@[j]).worker_id@ != worker_id@,
            decreases self.workers.len() - i,
        {
            if self.workers[i].worker_id.same(worker_id) {
                return Some(i);
            }
            i = i + 1;
        }
        None
    }

    /// Find a worker entry by id.
    pub fn find_worker(&self, worker_id: &WorkerId) -> (r: Option<&WorkerEntry>)
        ensures
            match r {
                Some(w) => exists|i: int|
                    worker_at(self.workers@, worker_id@, i) && *w == #[trigger] self.workers@[i],
                None => !holds_worker(self.workers@, worker_id@),
            },
    {
        match self.worker_index(worker_id) {
            Some(i) => Some(&self.workers[i]),
            None => None,
        }
    }

    /// Find a worker entry by id, for changing it in place: the first
    /// worker with that id, whose final value becomes that entry of the
    /// group; nothing else of the group changes.
    pub fn find_worker_mut(&mut self, worker_id: &WorkerId) -> (r: Option<&mut WorkerEntry>)
        ensures
            match r {
                Some(w) => exists|i: int|
                    worker_at(old(self).workers@, worker_id@, i) && *w == #[trigger] old(
                        self,
                    ).workers@[i] && final(self).workers@ == old(self).workers@.update(i, *final(w))
                        && final(self).perspective == old(self).perspective
                        && final(self).base_commit == old(self).base_commit
                        && final(self).read_set == old(self).read_set
                        && final(self).write_set == old(self).write_set,
                None => !holds_worker(old(self).workers@, worker_id@) && *final(self) == *old(self),
            },
    {
        match self.worker_index(worker_id) {
            Some(i) => Some(&mut self.workers[i]),
            None => None,
        }
    }

    /// Clear the boundary: an empty boundary marks "no active ownership".
    pub fn clear_boundary(&mut self)
        ensures
            final(self).wf(),
            final(self)@ == cleared(old(self)@),
    {
        self.read_set = PathSet::new();
        self.write_set = PathSet::new();
        assert(self@ =~= cleared(old(self)@));
    }

    /// Remove every worker with the id of `worker_id`; returns whether one
    /// was present.
    pub fn retain_other_workers(&mut self, worker_id: &WorkerId) -> (removed: bool)
        ensures
            final(self)@ == (GroupModel {
                workers: without_worker(old(self)@.workers, worker_id@),
                ..old(self)@
            }),
            final(self).wf() == old(self).wf(),
            removed == holds_worker(old(self)@.workers, worker_id@),
    {
        let ghost ws = self.workers@;
        let ghost id = worker_id@;
        let ghost keep = other_than(id);
        let n = self.workers.len();
        let mut i: usize = 0;
        let mut k: usize = 0;
        let mut removed = false;
        while k < n
            invariant
                n == ws.len(),
                id == worker_id@,
                keep == other_than(id),
                k <= n,
                i == ws.take(k as int).filter(keep).len(),
                self.workers@ == ws.take(k as int).filter(keep) + ws.skip(k as int),
                self.perspective == old(self).perspective,
                self.base_commit == old(self).base_commit,
                self.read_set == old(self).read_set,
                self.write_set == old(self).write_set,
                removed == holds_worker(ws.take(k as int), id),
            decreases n - k,
        {
            proof {
                lemma_filter_take_push(ws, keep, k as int);
                assert(self.workers@[i as int] == ws[k as int]);
            }
            if self.workers[i].worker_id.same(worker_id) {
                let ghost before = self.workers@;
                self.workers.remove(i);
                proof {
                    assert(self.workers@ =~= ws.take(k + 1).filter(keep) + ws.skip(k + 1)) by {
                        assert(before == ws.take(k as int).filter(keep) + ws.skip(k as int));
                        assert(ws.skip(k as int) =~= seq![ws[k as int]] + ws.skip(k + 1));
                    }
                    assert(ws.take(k + 1)[k as int] == ws[k as int]);
                }
                removed = true;
            } else {
                proof {
                    assert(self.workers@ =~= ws.take(k + 1).filter(keep) + ws.skip(k + 1)) by {
                        assert(ws.skip(k as int) =~= seq![ws[k as int]] + ws.skip(k + 1));
                    }
                }
                i = i + 1;
            }
            proof {
                assert(holds_worker(ws.take(k + 1), id) == (holds_worker(ws.take(k as int), id)
                    || ws[k as int].worker_id@ == id)) by {
                    if holds_worker(ws.take(k + 1), id) {
                        let j = choose|j: int|
                            0 <= j < k + 1 && (#[trigger] ws.take(k + 1)[j]).worker_id@ == id;
                        if j < k {
                            assert(ws.take(k as int)[j] == ws[j]);
                        }
                    }
                    if holds_worker(ws.take(k as int), id) {
                        let j = choose|j: int|
                            0 <= j < k && (#[trigger] ws.take(k as int)[j]).worker_id@ == id;
                        assert(ws.take(k + 1)[j] == ws[j]);
                    }
                    if ws[k as int].worker_id@ == id {
                        assert(ws.take(k + 1)[k as int] == ws[k as int]);
                    }
                }
            }
            k = k + 1;
        }
        assert(ws.take(n as int) =~= ws);
        assert(ws.skip(n as int) =~= Seq::<WorkerEntry>::empty());
        assert(self.workers@ =~= without_worker(ws, id));
        assert(self@ =~= GroupModel { workers: without_worker(old(self)@.workers, worker_id@), ..old(self)@ });
        removed
    }
}

/// Orchestrator runtime state: the bidding groups, each with its
/// member workers.
#[derive(Debug)]
pub struct StateFile {
    /// Bidding groups.
    pub groups: Vec<BiddingGroupRecord>,
}

impl View for StateFile {
    type V = Seq<GroupModel>;

    open spec fn view(&self) -> Seq<GroupModel> {
        self.groups@.map_values(|g: BiddingGroupRecord| g@)
    }
}

/// Index `i` is the first live group for the perspective text `p`.
pub open spec fn live_group_at(gs: Seq<GroupModel>, p: Seq<char>, i: int) -> bool {
    &&& 0 <= i < gs.len()
    &&& gs[i].perspective@ == p
    &&& group_live(gs[i])
    &&& forall|j: int| 0 <= j < i ==> !(#[trigger] gs[j].perspective@ == p && group_live(gs[j]))
}

/// Whether some group for the perspective text `p` is live.
pub open spec fn has_live_group(gs: Seq<GroupModel>, p: Seq<char>) -> bool {
    exists|i: int| 0 <= i < gs.len() && (#[trigger] gs[i]).perspective@ == p && group_live(gs[i])
}

/// Index `g` is the first group holding a worker with the id text `id`.
pub open spec fn group_of(gs: Seq<GroupModel>, id: Seq<char>, g: int) -> bool {
    &&& 0 <= g < gs.len()
    &&& holds_worker(gs[g].workers, id)
    &&& forall|j: int| 0 <= j < g ==> !holds_worker(#[trigger] gs[j].workers, id)
}

/// Whether some group holds a worker with the id text `id`.
pub open spec fn state_holds(gs: Seq<GroupModel>, id: Seq<char>) -> bool {
    exists|g: int| 0 <= g < gs.len() && holds_worker(#[trigger] gs[g].workers, id)
}

/// Every group with every worker of id text `id` removed.
pub open spec fn drop_worker(gs: Seq<GroupModel>, id: Seq<char>) -> Seq<GroupModel> {
    gs.map_values(|g: GroupModel| GroupModel { workers: without_worker(g.workers, id), ..g })
}

/// The groups that still have at least one worker entry.
pub open spec fn gc(gs: Seq<GroupModel>) -> Seq<GroupModel> {
    gs.filter(|g: GroupModel| g.workers.len() > 0)
}

/// The groups that have at least one live worker.
pub open spec fn live_only(gs: Seq<GroupModel>) -> Seq<GroupModel> {
    gs.filter(|g: GroupModel| group_live(g))
}

impl StateFile {
    /// Every boundary set holds each path once.
    pub open spec fn wf(&self) -> bool {
        forall|i: int| 0 <= i < self.groups@.len() ==> (#[trigger] self.groups@[i]).wf()
    }

    /// An empty state.
    pub fn new() -> (s: Self)
        ensures
            s.wf(),
            s@ == Seq::<GroupModel>::empty(),
    {
        let s = StateFile { groups: Vec::new() };
        assert(s@ =~= Seq::<GroupModel>::empty());
        s
    }

    /// The position of the live bidding group for a perspective.
    pub fn live_group_index(&self, perspective: &PerspectiveName) -> (r: Option<usize>)
        ensures
            match r {
                Some(i) => live_group_at(self@, perspective@, i as int),
                None => !has_live_group(self@, perspective@),
            },
    {
        let mut i: usize = 0;
        while i < self.groups.len()
            invariant
                i <= self.groups.len(),
                forall|j: int|
                    0 <= j < i ==> !(#[trigger] self@[j].perspective@ == perspective@ && group_live(
                        self@[j],
                    )),
            decreases self.groups.len() - i,
        {
            let g = &self.groups[i];
            assert(self@[i as int] == g@);
            if g.perspective.same(perspective) && g.has_live_workers() {
                return Some(i);
            }
            i = i + 1;
        }
        None
    }

    /// Find the live bidding group for a perspective: one with at least
    /// one non-finalized worker.
    pub fn find_live_group(&self, perspective: &PerspectiveName) -> (r: Option<&BiddingGroupRecord>)
        ensures
            match r {
                Some(g) => exists|i: int|
                    live_group_at(self@, perspective@, i) && *g == #[trigger] self.groups@[i],
                None => !has_live_group(self@, perspective@),
            },
    {
        match self.live_group_index(perspective) {
            Some(i) => Some(&self.groups[i]),
            None => None,
        }
    }

    /// Find the live bidding group for a perspective, for changing it in
    /// place: the group's final value becomes that entry of the state,
    /// and no other group changes.
    pub fn find_live_group_mut(&mut self, perspective: &PerspectiveName) -> (r: Option<
        &mut BiddingGroupRecord,
    >)
        ensures
            match r {
                Some(grp) => exists|i: int|
                    live_group_at(old(self)@, perspective@, i) && *grp == #[trigger] old(
                        self,
                    ).groups@[i] && final(self).groups@ == old(self).groups@.update(i, *final(grp)),
                None => !has_live_group(old(self)@, perspective@) && *final(self) == *old(self),
            },
    {
        match self.live_group_index(perspective) {
            Some(i) => Some(&mut self.groups[i]),
            None => None,
        }
    }

    /// Find the group holding a worker id, for changing it in place: the
    /// first such group, whose final value becomes that entry of the
    /// state; no other group changes.
    pub fn find_worker_group_mut(&mut self, worker_id: &WorkerId) -> (r: Option<
        &mut BiddingGroupRecord,
    >)
        ensures
            match r {
                Some(grp) => exists|g: int|
                    group_of(old(self)@, worker_id@, g) && *grp == #[trigger] old(self).groups@[g]
                        && final(self).groups@ == old(self).groups@.update(g, *final(grp)),
                None => !state_holds(old(self)@, worker_id@) && *final(self) == *old(self),
            },
    {
        match self.worker_location(worker_id) {
            Some((g, _)) => Some(&mut self.groups[g]),
            None => None,
        }
    }

    /// The group and worker positions for a worker id: the first group
    /// holding it, and the first matching worker in that group.
    pub fn worker_location(&self, worker_id: &WorkerId) -> (r: Option<(usize, usize)>)
        ensures
            match r {
                Some((g, w)) => group_of(self@, worker_id@, g as int) && worker_at(
                    self@[g as int].workers,
                    worker_id@,
                    w as int,
                ),
                None => !state_holds(self@, worker_id@),
            },
    {
        let mut g: usize = 0;
        while g < self.groups.len()
            invariant
                g <= self.groups.len(),
                forall|j: int| 0 <= j < g ==> !holds_worker(#[trigger] self@[j].workers, worker_id@),
            decreases self.groups.len() - g,
        {
            assert(self@[g as int] == self.groups@[g as int]@);
            match self.groups[g].worker_index(worker_id) {
                Some(w) => {
                    return Some((g, w));
                },
                None => {},
            }
            g = g + 1;
        }
        None
    }

    /// Find the group and worker entry for a worker id.
    pub fn find_worker(&self, worker_id: &WorkerId) -> (r: Option<(&BiddingGroupRecord, &WorkerEntry)>)
        ensures
            match r {
                Some((grp, w)) => exists|g: int, i: int|
                    group_of(self@, worker_id@, g) && worker_at(self@[g].workers, worker_id@, i)
                        && *grp == #[trigger] self.groups@[g] && *w == #[trigger] self@[g].workers[i],
                None => !state_holds(self@, worker_id@),
            },
    {
        match self.worker_location(worker_id) {
            Some((g, w)) => {
                let grp = &self.groups[g];
                assert(self@[g as int] == grp@);
                Some((grp, &grp.workers[w]))
            },
            None => None,
        }
    }

    /// Remove groups that have no worker entries at all.
    pub fn gc_empty_groups(&mut self)
        ensures
            final(self)@ == gc(old(self)@),
            old(self).wf() ==> final(self).wf(),
    {
        let ghost gs = self@;
        let ghost raw = self.groups@;
        let ghost keep = |g: GroupModel| g.workers.len() > 0;
        let n = self.groups.len();
        let mut i: usize = 0;
        let mut k: usize = 0;
        while k < n
            invariant
                n == gs.len(),
                gs == old(self)@,
                raw == old(self).groups@,
                gs == raw.map_values(|g: BiddingGroupRecord| g@),
                keep == (|g: GroupModel| g.workers.len() > 0),
                k <= n,
                i == gs.take(k as int).filter(keep).len(),
                self@ == gs.take(k as int).filter(keep) + gs.skip(k as int),
                self.groups@.len() == i + (n - k),
                forall|q: int| i <= q < self.groups@.len() ==> self.groups@[q] == raw[k + q - i],
                old(self).wf() ==> self.wf(),
            decreases n - k,
        {
            proof {
                lemma_filter_take_push(gs, keep, k as int);
                assert(self@[i as int] == gs[k as int]);
                assert(self.groups@[i as int] == raw[k as int]);
            }
            if self.groups[i].workers.len() == 0 {
                let ghost before = self@;
                let ghost before_raw = self.groups@;
                self.groups.remove(i);
                proof {
                    assert(self.groups@ == before_raw.remove(i as int));
                    assert(self@ =~= before.remove(i as int));
                    assert(gs.skip(k as int) =~= seq![gs[k as int]] + gs.skip(k + 1));
                    assert(self@ =~= gs.take(k + 1).filter(keep) + gs.skip(k + 1));
                    assert forall|q: int| i <= q < self.groups@.len() implies self.groups@[q] == raw[k
                        + 1 + q - i] by {
                        assert(self.groups@[q] == before_raw[q + 1]);
                    }
                    if old(self).wf() {
                        assert forall|q: int| 0 <= q < self.groups@.len() implies (
                        #[trigger] self.groups@[q]).wf() by {
                            if q < i {
                                assert(self.groups@[q] == before_raw[q]);
                            } else {
                                assert(self.groups@[q] == before_raw[q + 1]);
                            }
                        }
                    }
                }
            } else {
                proof {
                    assert(gs.skip(k as int) =~= seq![gs[k as int]] + gs.skip(k + 1));
                    assert(self@ =~= gs.take(k + 1).filter(keep) + gs.skip(k + 1));
                }
                i = i + 1;
            }
            k = k + 1;
        }
        assert(gs.take(n as int) =~= gs);
        assert(gs.skip(n as int) =~= Seq::<GroupModel>::empty());
        assert(self@ =~= gc(gs));
    }

    /// Remove every worker entry with the id of `worker_id`, then drop
    /// groups left without workers; returns whether one was present.
    pub fn remove_worker(&mut self, worker_id: &WorkerId) -> (removed: bool)
        ensures
            final(self)@ == gc(drop_worker(old(self)@, worker_id@)),
            removed == state_holds(old(self)@, worker_id@),
            old(self).wf() ==> final(self).wf(),
            crate::runtime::conflict::conflict_free(old(self)@) ==> crate::runtime::conflict::conflict_free(
                final(self)@,
            ),
    {
        let ghost gs = self@;
        proof {
            if crate::runtime::conflict::conflict_free(gs) {
                crate::runtime::conflict::lemma_remove_worker_conflict_free(gs, worker_id@);
            }
        }
        let n = self.groups.len();
        let mut removed = false;
        let mut g: usize = 0;
        while g < n
            invariant
                n == gs.len(),
                gs == old(self)@,
                g <= n,
                self.groups@.len() == n,
                forall|q: int|
                    0 <= q < g ==> #[trigger] self@[q] == drop_worker(gs, worker_id@)[q],
                forall|q: int| g <= q < n ==> #[trigger] self@[q] == gs[q],
                forall|q: int| g <= q < n ==> #[trigger] self.groups@[q] == old(self).groups@[q],
                removed == exists|q: int| 0 <= q < g && holds_worker(#[trigger] gs[q].workers, worker_id@),
                old(self).wf() ==> self.wf(),
            decreases n - g,
        {
            let ghost before = self.groups@;
            let ghost before_view = self@;
            let mut group = self.groups.remove(g);
            assert(group@ == gs[g as int]);
            let r = group.retain_other_workers(worker_id);
            self.groups.insert(g, group);
            proof {
                assert(self.groups@ =~= before.update(g as int, group));
                assert forall|q: int| 0 <= q < g + 1 implies #[trigger] self@[q] == drop_worker(
                    gs,
                    worker_id@,
                )[q] by {
                    if q < g {
                        assert(self.groups@[q] == before[q]);
                        assert(before_view[q] == before[q]@);
                        assert(self@[q] == before_view[q]);
                    } else {
                        assert(self@[q] == group@);
                        assert(self@[q] =~= drop_worker(gs, worker_id@)[q]);
                    }
                }
                if old(self).wf() {
                    assert forall|q: int| 0 <= q < self.groups@.len() implies (
                    #[trigger] self.groups@[q]).wf() by {
                        if q != g {
                            assert(self.groups@[q] == before[q]);
                        }
                    }
                }
            }
            removed = removed || r;
            g = g + 1;
        }
        assert(self@ =~= drop_worker(gs, worker_id@));
        proof {
            if removed {
                let q = choose|q: int| 0 <= q < n && holds_worker(#[trigger] gs[q].workers, worker_id@);
                assert(state_holds(gs, worker_id@));
            }
        }
        self.gc_empty_groups();
        removed
    }

    /// All groups that still have at least one live worker, in order.
    pub fn live_groups(&self) -> (r: Vec<&BiddingGroupRecord>)
        ensures
            r@.map_values(|g: &BiddingGroupRecord| g@) == live_only(self@),
    {
        let ghost gs = self@;
        let ghost keep = |g: GroupModel| group_live(g);
        let mut r: Vec<&BiddingGroupRecord> = Vec::new();
        let mut k: usize = 0;
        while k < self.groups.len()
            invariant
                gs == self@,
                keep == (|g: GroupModel| group_live(g)),
                k <= self.groups.len(),
                r@.map_values(|g: &BiddingGroupRecord| g@) == gs.take(k as int).filter(keep),
            decreases self.groups.len() - k,
        {
            proof {
                lemma_filter_take_push(gs, keep, k as int);
            }
            let g = &self.groups[k];
            assert(gs[k as int] == g@);
            if g.has_live_workers() {
                let ghost before = r@;
                r.push(g);
                assert(r@.map_values(|g: &BiddingGroupRecord| g@) =~= before.map_values(
                    |g: &BiddingGroupRecord| g@,
                ).push(g@));
            }
            k = k + 1;
        }
        assert(gs.take(self.groups.len() as int) =~= gs);
        r
    }
}

} // verus!
