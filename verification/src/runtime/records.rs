//! Persisted orchestrator state: one record per bidding group and one
//! per worker, and the join between those records and the runtime state.
//!
//! Every worker record must name an existing group record; the join
//! fails instead of guessing a partial topology from orphaned records.

use vstd::prelude::*;

use super::commit::CanonicalCommitHash;
use super::error::RuntimeError;
use super::group::{BiddingGroupRecord, GroupModel, StateFile, WorkerEntry};
use super::orchestrator::check_failed_with;
use super::state::WorkerState;
use super::worker_id::WorkerId;
use crate::label::Label;
use crate::path_set::PathSet;
use crate::perspective::name::PerspectiveName;
use crate::sort::{keys_sorted, sort_by_text_key, text_le, TextKey};

verus! {

/// One persisted bidding-group record: the group without its workers.
#[derive(Debug)]
pub struct GroupStateRecord {
    /// Perspective governing the group.
    pub perspective: PerspectiveName,
    /// Base commit pinning the group's code snapshot.
    pub base_commit: CanonicalCommitHash,
    /// Read set fixed at group formation.
    pub read_set: PathSet,
    /// Write set fixed at group formation.
    pub write_set: PathSet,
}

/// One persisted worker record.
#[derive(Debug)]
pub struct WorkerStateRecord {
    /// Unique worker identity.
    pub worker_id: WorkerId,
    /// Perspective of the worker's group.
    pub perspective: PerspectiveName,
    /// Current lifecycle state.
    pub state: WorkerState,
    /// Path to the managed worktree.
    pub worktree_path: String,
    /// Submitted worker commit, while the worker is `COMMITTED`.
    pub submitted_head_commit: Option<CanonicalCommitHash>,
}

impl TextKey for GroupStateRecord {
    open spec fn text_key(&self) -> Seq<char> {
        self.perspective@
    }

    fn key_text(&self) -> (r: &str) {
        self.perspective.as_str()
    }
}

impl TextKey for WorkerStateRecord {
    open spec fn text_key(&self) -> Seq<char> {
        self.worker_id@
    }

    fn key_text(&self) -> (r: &str) {
        self.worker_id.as_str()
    }
}

impl TextKey for WorkerEntry {
    open spec fn text_key(&self) -> Seq<char> {
        self.worker_id@
    }

    fn key_text(&self) -> (r: &str) {
        self.worker_id.as_str()
    }
}

/// The worker entry a worker record describes.
pub open spec fn entry_of(w: WorkerStateRecord) -> WorkerEntry {
    WorkerEntry {
        worker_id: w.worker_id,
        state: w.state,
        worktree_path: w.worktree_path,
        submitted_head_commit: w.submitted_head_commit,
    }
}

/// The record of worker entry `e` of a group for perspective `p`.
pub open spec fn record_of(e: WorkerEntry, p: PerspectiveName) -> WorkerStateRecord {
    WorkerStateRecord {
        worker_id: e.worker_id,
        perspective: p,
        state: e.state,
        worktree_path: e.worktree_path,
        submitted_head_commit: e.submitted_head_commit,
    }
}

/// The record of a group, without its workers.
pub open spec fn group_record_of(g: BiddingGroupRecord) -> GroupStateRecord {
    GroupStateRecord {
        perspective: g.perspective,
        base_commit: g.base_commit,
        read_set: g.read_set,
        write_set: g.write_set,
    }
}

/// The group records of the groups `gs`, in order.
pub open spec fn group_records(gs: Seq<BiddingGroupRecord>) -> Seq<GroupStateRecord> {
    gs.map_values(|g: BiddingGroupRecord| group_record_of(g))
}

/// The models of the groups `gs`, in order.
pub open spec fn group_models(gs: Seq<BiddingGroupRecord>) -> Seq<GroupModel> {
    gs.map_values(|g: BiddingGroupRecord| g@)
}

/// The worker records of the groups `gs`, group by group.
pub open spec fn worker_records(gs: Seq<BiddingGroupRecord>) -> Seq<WorkerStateRecord>
    decreases gs.len(),
{
    if gs.len() == 0 {
        Seq::empty()
    } else {
        gs[0].workers@.map_values(|e: WorkerEntry| record_of(e, gs[0].perspective))
            + worker_records(gs.drop_first())
    }
}

/// The entries of the worker records in `ws` whose perspective text is
/// `p`, in record order.
pub open spec fn entries_for(ws: Seq<WorkerStateRecord>, p: Seq<char>) -> Seq<WorkerEntry> {
    ws.filter(for_perspective(p)).map_values(|w: WorkerStateRecord| entry_of(w))
}

/// Whether a worker record is for the perspective text `p`.
pub open spec fn for_perspective(p: Seq<char>) -> spec_fn(WorkerStateRecord) -> bool {
    |w: WorkerStateRecord| w.perspective@ == p
}

/// No two group records name the same perspective.
pub open spec fn perspectives_unique(gs: Seq<GroupStateRecord>) -> bool {
    forall|i: int, j: int|
        0 <= i < j < gs.len() ==> (#[trigger] gs[i]).perspective@ != (#[trigger] gs[j]).perspective@
}

/// Worker record `i` repeats the id of an earlier record.
pub open spec fn repeats_worker(ws: Seq<WorkerStateRecord>, i: int) -> bool {
    exists|j: int| 0 <= j < i && (#[trigger] ws[j]).worker_id@ == ws[i].worker_id@
}

/// Worker record `i` names a perspective that no group record has.
pub open spec fn orphaned(gs: Seq<GroupStateRecord>, ws: Seq<WorkerStateRecord>, i: int) -> bool {
    forall|k: int| 0 <= k < gs.len() ==> (#[trigger] gs[k]).perspective@ != ws[i].perspective@
}

/// Worker record `i` repeats an id or names no group.
pub open spec fn worker_bad(gs: Seq<GroupStateRecord>, ws: Seq<WorkerStateRecord>, i: int) -> bool {
    repeats_worker(ws, i) || orphaned(gs, ws, i)
}

/// Group perspectives are unique and every worker record is sound.
pub open spec fn records_consistent(gs: Seq<GroupStateRecord>, ws: Seq<WorkerStateRecord>) -> bool {
    &&& perspectives_unique(gs)
    &&& forall|i: int| 0 <= i < ws.len() ==> !#[trigger] worker_bad(gs, ws, i)
}

/// Index `i` is the first unsound worker record.
pub open spec fn first_bad_worker(
    gs: Seq<GroupStateRecord>,
    ws: Seq<WorkerStateRecord>,
    i: int,
) -> bool {
    &&& 0 <= i < ws.len()
    &&& worker_bad(gs, ws, i)
    &&& forall|j: int| 0 <= j < i ==> !#[trigger] worker_bad(gs, ws, j)
}

/// The failure text for two group records of one perspective.
pub open spec fn duplicate_group_text() -> Seq<char> {
    "duplicate persisted group state for one perspective"@
}

/// The failure text for the unsound worker record `i`.
pub open spec fn worker_record_error(
    gs: Seq<GroupStateRecord>,
    ws: Seq<WorkerStateRecord>,
    i: int,
) -> Seq<char> {
    if repeats_worker(ws, i) {
        "duplicate persisted worker state for `"@ + ws[i].worker_id@ + "`"@
    } else {
        "worker `"@ + ws[i].worker_id@ + "` references missing group `"@ + ws[i].perspective@
            + "`"@
    }
}

/// What a group record keeps of a group: all but its workers.
pub open spec fn record_head(g: GroupStateRecord) -> (
    PerspectiveName,
    CanonicalCommitHash,
    Set<Seq<char>>,
    Set<Seq<char>>,
) {
    (g.perspective, g.base_commit, g.read_set.set(), g.write_set.set())
}

/// The same parts of a group model.
pub open spec fn model_head(m: GroupModel) -> (
    PerspectiveName,
    CanonicalCommitHash,
    Set<Seq<char>>,
    Set<Seq<char>>,
) {
    (m.perspective, m.base_commit, m.read, m.write)
}

/// Some group record in `rs` has the head `h`.
pub open spec fn head_recorded(rs: Seq<GroupStateRecord>, h: (
    PerspectiveName,
    CanonicalCommitHash,
    Set<Seq<char>>,
    Set<Seq<char>>,
)) -> bool {
    exists|i: int| 0 <= i < rs.len() && record_head(rs[i]) == h
}

/// Some group model in `gs` has the head `h`.
pub open spec fn head_modelled(gs: Seq<GroupModel>, h: (
    PerspectiveName,
    CanonicalCommitHash,
    Set<Seq<char>>,
    Set<Seq<char>>,
)) -> bool {
    exists|j: int| 0 <= j < gs.len() && model_head(gs[j]) == h
}

/// `gs` is the join of group records `rs` and worker records `ws`: one
/// group per record, ordered by perspective, each holding the entries of
/// the worker records for its perspective ordered by worker id.
pub open spec fn joined(
    rs: Seq<GroupStateRecord>,
    ws: Seq<WorkerStateRecord>,
    gs: Seq<GroupModel>,
) -> bool {
    &&& gs.len() == rs.len()
    &&& forall|i: int, j: int|
        0 <= i < j < gs.len() ==> text_le(
            (#[trigger] gs[i]).perspective@,
            (#[trigger] gs[j]).perspective@,
        )
    &&& forall|j: int| 0 <= j < gs.len() ==> head_recorded(rs, model_head(#[trigger] gs[j]))
    &&& forall|i: int| 0 <= i < rs.len() ==> head_modelled(gs, record_head(#[trigger] rs[i]))
    &&& forall|j: int|
        0 <= j < gs.len() ==> (#[trigger] gs[j]).workers.to_multiset() == entries_for(
            ws,
            gs[j].perspective@,
        ).to_multiset() && keys_sorted(gs[j].workers)
}

/// A copy of the entry a worker record describes.
fn entry_copy(w: &WorkerStateRecord) -> (e: WorkerEntry)
    ensures
        e == entry_of(*w),
{
    WorkerEntry {
        worker_id: w.worker_id.clone(),
        state: w.state,
        worktree_path: w.worktree_path.clone(),
        submitted_head_commit: match &w.submitted_head_commit {
            Some(h) => Some(h.clone()),
            None => None,
        },
    }
}

/// The entries of the worker records for one perspective, in order.
fn collect_entries(workers: &Vec<WorkerStateRecord>, perspective: &PerspectiveName) -> (r: Vec<
    WorkerEntry,
>)
    ensures
        r@ == entries_for(workers@, perspective@),
{
    let ghost ws = workers@;
    let ghost keep = |w: WorkerStateRecord| w.perspective@ == perspective@;
    let mut r: Vec<WorkerEntry> = Vec::new();
    let mut k: usize = 0;
    while k < workers.len()
        invariant
            ws == workers@,
            keep == (|w: WorkerStateRecord| w.perspective@ == perspective@),
            k <= ws.len(),
            r@ == ws.take(k as int).filter(keep).map_values(|w: WorkerStateRecord| entry_of(w)),
        decreases ws.len() - k,
    {
        proof {
            crate::runtime::group::lemma_filter_take_push(ws, keep, k as int);
        }
        if workers[k].perspective.same(perspective) {
            let e = entry_copy(&workers[k]);
            r.push(e);
        }
        assert(r@ =~= ws.take(k + 1).filter(keep).map_values(
            |w: WorkerStateRecord| entry_of(w),
        ));
        k = k + 1;
    }
    assert(ws.take(ws.len() as int) =~= ws);
    r
}

/// The text `a`, then `b`, then `c`.
fn concat3(a: &str, b: &str, c: &str) -> (r: String)
    ensures
        r@ == a@ + b@ + c@,
{
    let mut r = String::from_str(a);
    r.append(b);
    r.append(c);
    r
}

impl StateFile {
    /// Join persisted group and worker records into runtime state.
    ///
    /// Fails when two group records share a perspective, or at the first
    /// worker record that repeats an id or names no group.
    pub fn from_records(groups: Vec<GroupStateRecord>, workers: Vec<WorkerStateRecord>) -> (r:
        Result<StateFile, RuntimeError>)
        requires
            forall|i: int|
                0 <= i < groups@.len() ==> (#[trigger] groups@[i]).read_set.wf()
                    && groups@[i].write_set.wf(),
        ensures
            r is Ok <==> records_consistent(groups@, workers@),
            r matches Ok(s) ==> s.wf() && joined(groups@, workers@, s@),
            r matches Err(e) ==> if !perspectives_unique(groups@) {
                check_failed_with(e, duplicate_group_text())
            } else {
                exists|i: int|
                    first_bad_worker(groups@, workers@, i) && check_failed_with(
                        e,
                        worker_record_error(groups@, workers@, i),
                    )
            },
    {
        let ghost gs = groups@;
        let ghost ws = workers@;
        let mut i: usize = 0;
        while i < groups.len()
            invariant
                gs == groups@,
                i <= gs.len(),
                forall|a: int, b: int|
                    0 <= a < b < i ==> (#[trigger] gs[a]).perspective@ != (#[trigger] gs[b]).perspective@,
            decreases gs.len() - i,
        {
            let mut j: usize = 0;
            while j < i
                invariant
                    gs == groups@,
                    j <= i < gs.len(),
                    forall|a: int| 0 <= a < j ==> (#[trigger] gs[a]).perspective@ != gs[i as int].perspective@,
                decreases i - j,
            {
                if groups[j].perspective.same(&groups[i].perspective) {
                    let e = RuntimeError::CheckFailed(
                        String::from_str("duplicate persisted group state for one perspective"),
                    );
                    return Err(e);
                }
                j = j + 1;
            }
            i = i + 1;
        }
        assert(perspectives_unique(gs));
        let mut i: usize = 0;
        while i < workers.len()
            invariant
                gs == groups@,
                ws == workers@,
                perspectives_unique(gs),
                i <= ws.len(),
                forall|a: int| 0 <= a < i ==> !#[trigger] worker_bad(gs, ws, a),
            decreases ws.len() - i,
        {
            let mut j: usize = 0;
            while j < i
                invariant
                    gs == groups@,
                    ws == workers@,
                    perspectives_unique(gs),
                    j <= i < ws.len(),
                    forall|a: int| 0 <= a < i ==> !#[trigger] worker_bad(gs, ws, a),
                    forall|a: int| 0 <= a < j ==> (#[trigger] ws[a]).worker_id@ != ws[i as int].worker_id@,
                decreases i - j,
            {
                if workers[j].worker_id.same(&workers[i].worker_id) {
                    assert(repeats_worker(ws, i as int));
                    assert(worker_bad(gs, ws, i as int));
                    assert(first_bad_worker(gs, ws, i as int));
                    let e = concat3(
                        "duplicate persisted worker state for `",
                        workers[i].worker_id.as_str(),
                        "`",
                    );
                    let err = RuntimeError::CheckFailed(e);
                    assert(check_failed_with(err, worker_record_error(gs, ws, i as int)));
                    return Err(err);
                }
                j = j + 1;
            }
            assert(!repeats_worker(ws, i as int));
            let mut k: usize = 0;
            let mut found = false;
            while k < groups.len() && !found
                invariant
                    gs == groups@,
                    ws == workers@,
                    i < ws.len(),
                    k <= gs.len(),
                    found ==> exists|a: int| 0 <= a < k && (#[trigger] gs[a]).perspective@ == ws[i as int].perspective@,
                    !found ==> forall|a: int| 0 <= a < k ==> (#[trigger] gs[a]).perspective@ != ws[i as int].perspective@,
                decreases gs.len() - k,
            {
                if groups[k].perspective.same(&workers[i].perspective) {
                    found = true;
                }
                k = k + 1;
            }
            if !found {
                assert(orphaned(gs, ws, i as int));
                assert(worker_bad(gs, ws, i as int));
                assert(first_bad_worker(gs, ws, i as int));
                let mut e = concat3("worker `", workers[i].worker_id.as_str(), "` references missing group `");
                e.append(workers[i].perspective.as_str());
                e.append("`");
                let err = RuntimeError::CheckFailed(e);
                assert(check_failed_with(err, worker_record_error(gs, ws, i as int)));
                return Err(err);
            }
            assert(!orphaned(gs, ws, i as int));
            i = i + 1;
        }
        assert(records_consistent(gs, ws));
        let sorted = sort_by_text_key(groups);
        let ghost srt = sorted@;
        proof {
            broadcast use vstd::seq_lib::group_to_multiset_ensures;
            assert(srt.len() == srt.to_multiset().len());
            assert(gs.len() == gs.to_multiset().len());
            assert forall|j: int| 0 <= j < srt.len() implies gs.contains(#[trigger] srt[j]) by {
                assert(srt.to_multiset().count(srt[j]) > 0);
            }
        }
        let mut src = sorted;
        let mut out: Vec<BiddingGroupRecord> = Vec::new();
        let mut taken: usize = 0;
        while src.len() > 0
            invariant
                ws == workers@,
                src@ == srt.skip(taken as int),
                taken <= srt.len(),
                srt.len() <= usize::MAX,
                out@.len() == taken,
                forall|j: int| 0 <= j < srt.len() ==> gs.contains(#[trigger] srt[j]),
                forall|i: int|
                    0 <= i < gs.len() ==> (#[trigger] gs[i]).read_set.wf() && gs[i].write_set.wf(),
                forall|j: int|
                    0 <= j < taken ==> {
                        &&& model_head((#[trigger] out@[j])@) == record_head(srt[j])
                        &&& out@[j].wf()
                        &&& out@[j].workers@.to_multiset() == entries_for(
                            ws,
                            out@[j].perspective@,
                        ).to_multiset()
                        &&& keys_sorted(out@[j].workers@)
                    },
            decreases src.len(),
        {
            assert(src@[0] == srt[taken as int]);
            let rec = src.remove(0);
            let GroupStateRecord { perspective, base_commit, read_set, write_set } = rec;
            let bucket = collect_entries(&workers, &perspective);
            let members = sort_by_text_key(bucket);
            let group = BiddingGroupRecord { perspective, base_commit, read_set, write_set, workers: members };
            proof {
                assert(gs.contains(srt[taken as int]));
                let i = choose|i: int| 0 <= i < gs.len() && gs[i] == srt[taken as int];
                assert(gs[i].read_set.wf());
            }
            out.push(group);
            assert(src@ =~= srt.skip(taken + 1));
            taken = taken + 1;
        }
        let s = StateFile { groups: out };
        proof {
            broadcast use vstd::seq_lib::group_to_multiset_ensures;
            assert(taken == srt.len());
            let m = s@;
            assert(m.len() == gs.len());
            assert forall|j: int| 0 <= j < m.len() implies head_recorded(gs, model_head(#[trigger] m[j])) by {
                assert(m[j] == out@[j]@);
                assert(gs.contains(srt[j]));
                let i = choose|i: int| 0 <= i < gs.len() && gs[i] == srt[j];
                assert(record_head(gs[i]) == model_head(m[j]));
            }
            assert forall|i: int| 0 <= i < gs.len() implies head_modelled(m, record_head(#[trigger] gs[i])) by {
                assert(gs.to_multiset().count(gs[i]) > 0);
                assert(srt.contains(gs[i]));
                let j = choose|j: int| 0 <= j < srt.len() && srt[j] == gs[i];
                assert(m[j] == out@[j]@);
                assert(model_head(m[j]) == record_head(gs[i]));
            }
            assert forall|a: int, b: int| 0 <= a < b < m.len() implies text_le(
                (#[trigger] m[a]).perspective@,
                (#[trigger] m[b]).perspective@,
            ) by {
                assert(m[a] == out@[a]@ && m[b] == out@[b]@);
                assert(text_le(srt[a].text_key(), srt[b].text_key()));
            }
            assert forall|j: int| 0 <= j < m.len() implies (#[trigger] m[j]).workers.to_multiset()
                == entries_for(ws, m[j].perspective@).to_multiset() && keys_sorted(m[j].workers) by {
                assert(m[j] == out@[j]@);
            }
            assert forall|j: int| 0 <= j < s.groups@.len() implies (#[trigger] s.groups@[j]).wf() by {
                assert(s.groups@[j] == out@[j]);
            }
            assert(s.wf());
            assert(gs.len() == m.len());
            assert(forall|i: int, j: int|
                0 <= i < j < m.len() ==> text_le(
                    (#[trigger] m[i]).perspective@,
                    (#[trigger] m[j]).perspective@,
                ));
            assert(joined(gs, ws, m));
        }
        Ok(s)
    }
}


/// The worker records of `gs` followed by those of group `g`.
pub proof fn lemma_worker_records_push(gs: Seq<BiddingGroupRecord>, g: BiddingGroupRecord)
    ensures
        worker_records(gs.push(g)) == worker_records(gs) + g.workers@.map_values(
            |e: WorkerEntry| record_of(e, g.perspective),
        ),
    decreases gs.len(),
{
    let part = g.workers@.map_values(|e: WorkerEntry| record_of(e, g.perspective));
    if gs.len() == 0 {
        assert(gs.push(g).drop_first() =~= Seq::<BiddingGroupRecord>::empty());
        assert(gs.push(g)[0] == g);
        assert(worker_records(Seq::<BiddingGroupRecord>::empty()) == Seq::<WorkerStateRecord>::empty());
        assert(worker_records(gs.push(g)) =~= part);
    } else {
        assert(gs.push(g).drop_first() =~= gs.drop_first().push(g));
        lemma_worker_records_push(gs.drop_first(), g);
        assert(worker_records(gs.push(g)) =~= worker_records(gs) + part);
    }
}

impl StateFile {
    /// Split runtime state into group records ordered by perspective and
    /// worker records ordered by worker id.
    pub fn into_records(self) -> (r: (Vec<GroupStateRecord>, Vec<WorkerStateRecord>))
        ensures
            r.0@.to_multiset() == group_records(self.groups@).to_multiset(),
            keys_sorted(r.0@),
            r.1@.to_multiset() == worker_records(self.groups@).to_multiset(),
            keys_sorted(r.1@),
    {
        let ghost all = self.groups@;
        let mut src = self.groups;
        assert(all.len() == src.len());
        let mut group_recs: Vec<GroupStateRecord> = Vec::new();
        let mut worker_recs: Vec<WorkerStateRecord> = Vec::new();
        let mut taken: usize = 0;
        while src.len() > 0
            invariant
                src@ == all.skip(taken as int),
                taken <= all.len(),
                all.len() <= usize::MAX,
                group_recs@ == group_records(all.take(taken as int)),
                worker_recs@ == worker_records(all.take(taken as int)),
            decreases src.len(),
        {
            assert(src@[0] == all[taken as int]);
            let g = src.remove(0);
            let ghost gv = g;
            let BiddingGroupRecord { perspective, base_commit, read_set, write_set, workers } = g;
            let ghost before = worker_recs@;
            let mut k: usize = 0;
            while k < workers.len()
                invariant
                    k <= workers@.len(),
                    workers == gv.workers,
                    perspective == gv.perspective,
                    worker_recs@ == before + workers@.take(k as int).map_values(
                        |e: WorkerEntry| record_of(e, perspective),
                    ),
                decreases workers@.len() - k,
            {
                let e = &workers[k];
                let rec = WorkerStateRecord {
                    worker_id: e.worker_id.clone(),
                    perspective: perspective.dup(),
                    state: e.state,
                    worktree_path: e.worktree_path.clone(),
                    submitted_head_commit: match &e.submitted_head_commit {
                        Some(h) => Some(h.clone()),
                        None => None,
                    },
                };
                assert(rec == record_of(workers@[k as int], perspective));
                worker_recs.push(rec);
                assert(workers@.take(k + 1) =~= workers@.take(k as int).push(workers@[k as int]));
                assert(worker_recs@ =~= before + workers@.take(k + 1).map_values(
                    |e: WorkerEntry| record_of(e, perspective),
                ));
                k = k + 1;
            }
            assert(workers@.take(workers@.len() as int) =~= workers@);
            proof {
                assert(all.take(taken + 1) =~= all.take(taken as int).push(gv));
                lemma_worker_records_push(all.take(taken as int), gv);
            }
            group_recs.push(GroupStateRecord { perspective, base_commit, read_set, write_set });
            assert(group_recs@ =~= group_records(all.take(taken + 1)));
            assert(src@ =~= all.skip(taken + 1));
            taken = taken + 1;
        }
        assert(all.take(taken as int) =~= all);
        (sort_by_text_key(group_recs), sort_by_text_key(worker_recs))
    }
}


/// No two groups of `gs` are for the same perspective.
pub open spec fn group_perspectives_distinct(gs: Seq<BiddingGroupRecord>) -> bool {
    forall|i: int, j: int|
        0 <= i < j < gs.len() ==> (#[trigger] gs[i]).perspective@ != (#[trigger] gs[j]).perspective@
}

/// No two workers of `gs`, in the same group or not, share an id.
pub open spec fn worker_ids_distinct(gs: Seq<BiddingGroupRecord>) -> bool {
    forall|i: int, j: int|
        0 <= i < j < worker_records(gs).len() ==> (#[trigger] worker_records(gs)[i]).worker_id@
            != (#[trigger] worker_records(gs)[j]).worker_id@
}

/// Models `m` and `n` have the same head and the same workers, in any
/// order.
pub open spec fn same_group(m: GroupModel, n: GroupModel) -> bool {
    model_head(m) == model_head(n) && m.workers.to_multiset() == n.workers.to_multiset()
}

/// Some model in `gs` is the same group as `m`.
pub open spec fn group_found(gs: Seq<GroupModel>, m: GroupModel) -> bool {
    exists|i: int| 0 <= i < gs.len() && same_group(gs[i], m)
}

/// `a` and `b` hold the same groups, up to order.
pub open spec fn same_groups(a: Seq<GroupModel>, b: Seq<GroupModel>) -> bool {
    &&& a.len() == b.len()
    &&& forall|j: int| 0 <= j < b.len() ==> group_found(a, #[trigger] b[j])
    &&& forall|i: int| 0 <= i < a.len() ==> group_found(b, #[trigger] a[i])
}

/// The entries for `p` among the records of worker entries `ws` of a
/// group for `q`: all of them when `q` is `p`, none otherwise.
proof fn lemma_entries_for_part(ws: Seq<WorkerEntry>, q: PerspectiveName, p: Seq<char>)
    ensures
        entries_for(ws.map_values(|e: WorkerEntry| record_of(e, q)), p) == (if q@ == p {
            ws
        } else {
            Seq::<WorkerEntry>::empty()
        }),
    decreases ws.len(),
{
    reveal(Seq::filter);
    let part = ws.map_values(|e: WorkerEntry| record_of(e, q));
    let f = |w: WorkerStateRecord| w.perspective@ == p;
    if ws.len() == 0 {
        assert(part =~= Seq::<WorkerStateRecord>::empty());
        assert(part.filter(f) =~= Seq::<WorkerStateRecord>::empty());
        assert(entries_for(part, p) =~= Seq::<WorkerEntry>::empty());
        if q@ == p {
            assert(ws =~= Seq::<WorkerEntry>::empty());
        }
    } else {
        let rest = ws.drop_last();
        lemma_entries_for_part(rest, q, p);
        let rpart = rest.map_values(|e: WorkerEntry| record_of(e, q));
        assert(part.drop_last() =~= rpart);
        assert(part.last() == record_of(ws.last(), q));
        if q@ == p {
            assert(part.filter(f) == rpart.filter(f).push(part.last()));
            assert(entries_for(part, p) =~= entries_for(rpart, p).push(ws.last()));
            assert(ws =~= rest.push(ws.last()));
        } else {
            assert(part.filter(f) == rpart.filter(f));
        }
    }
}

/// The entries for `p` in two runs of records are those of the first run
/// and then those of the second.
proof fn lemma_entries_for_add(a: Seq<WorkerStateRecord>, b: Seq<WorkerStateRecord>, p: Seq<char>)
    ensures
        entries_for(a + b, p) == entries_for(a, p) + entries_for(b, p),
{
    let f = |w: WorkerStateRecord| w.perspective@ == p;
    Seq::filter_distributes_over_add(a, b, f);
    assert(entries_for(a + b, p) =~= entries_for(a, p) + entries_for(b, p));
}

/// No group of `gs` is for `p`: no worker record is for `p` either.
proof fn lemma_entries_for_absent(gs: Seq<BiddingGroupRecord>, p: Seq<char>)
    requires
        forall|i: int| 0 <= i < gs.len() ==> (#[trigger] gs[i]).perspective@ != p,
    ensures
        entries_for(worker_records(gs), p) == Seq::<WorkerEntry>::empty(),
    decreases gs.len(),
{
    if gs.len() == 0 {
        assert(entries_for(worker_records(gs), p) =~= Seq::<WorkerEntry>::empty());
    } else {
        let part = gs[0].workers@.map_values(|e: WorkerEntry| record_of(e, gs[0].perspective));
        lemma_entries_for_add(part, worker_records(gs.drop_first()), p);
        lemma_entries_for_part(gs[0].workers@, gs[0].perspective, p);
        assert forall|i: int| 0 <= i < gs.drop_first().len() implies (
        #[trigger] gs.drop_first()[i]).perspective@ != p by {
            assert(gs.drop_first()[i] == gs[i + 1]);
        }
        lemma_entries_for_absent(gs.drop_first(), p);
        assert(entries_for(worker_records(gs), p) =~= Seq::<WorkerEntry>::empty());
    }
}

/// Group `g` is the only group of `gs` for `p`: the worker records for
/// `p` describe exactly its workers, in order.
proof fn lemma_entries_for_group(gs: Seq<BiddingGroupRecord>, g: int, p: Seq<char>)
    requires
        0 <= g < gs.len(),
        gs[g].perspective@ == p,
        forall|i: int| 0 <= i < gs.len() && i != g ==> (#[trigger] gs[i]).perspective@ != p,
    ensures
        entries_for(worker_records(gs), p) == gs[g].workers@,
    decreases gs.len(),
{
    let part = gs[0].workers@.map_values(|e: WorkerEntry| record_of(e, gs[0].perspective));
    let rest = gs.drop_first();
    lemma_entries_for_add(part, worker_records(rest), p);
    lemma_entries_for_part(gs[0].workers@, gs[0].perspective, p);
    if g == 0 {
        assert forall|i: int| 0 <= i < rest.len() implies (#[trigger] rest[i]).perspective@ != p by {
            assert(rest[i] == gs[i + 1]);
        }
        lemma_entries_for_absent(rest, p);
        assert(entries_for(worker_records(gs), p) =~= gs[0].workers@);
    } else {
        assert forall|i: int| 0 <= i < rest.len() && i != g - 1 implies (
        #[trigger] rest[i]).perspective@ != p by {
            assert(rest[i] == gs[i + 1]);
        }
        assert(rest[g - 1] == gs[g]);
        lemma_entries_for_group(rest, g - 1, p);
        assert(entries_for(worker_records(gs), p) =~= gs[g].workers@);
    }
}

/// Every worker record of `gs` names the perspective of one of its
/// groups.
proof fn lemma_record_source(gs: Seq<BiddingGroupRecord>, k: int)
    requires
        0 <= k < worker_records(gs).len(),
    ensures
        exists|g: int|
            0 <= g < gs.len() && (#[trigger] gs[g]).perspective == worker_records(gs)[k].perspective,
    decreases gs.len(),
{
    let part = gs[0].workers@.map_values(|e: WorkerEntry| record_of(e, gs[0].perspective));
    let rest = gs.drop_first();
    assert(worker_records(gs) == part + worker_records(rest));
    if k < part.len() {
        assert(worker_records(gs)[k] == part[k]);
        assert(gs[0].perspective == worker_records(gs)[k].perspective);
    } else {
        lemma_record_source(rest, k - part.len());
        let g = choose|g: int|
            0 <= g < rest.len() && (#[trigger] rest[g]).perspective == worker_records(
                rest,
            )[k - part.len()].perspective;
        assert(rest[g] == gs[g + 1]);
    }
}

/// The entries for `p` of two runs of records with the same elements are
/// the same entries, up to order.
proof fn lemma_entries_for_perm(a: Seq<WorkerStateRecord>, b: Seq<WorkerStateRecord>, p: Seq<char>)
    requires
        a.to_multiset() == b.to_multiset(),
    ensures
        entries_for(a, p).to_multiset() == entries_for(b, p).to_multiset(),
{
    let f = for_perspective(p);
    crate::perm::lemma_filter_perm(a, b, f);
    crate::perm::lemma_map_perm(a.filter(f), b.filter(f), |w: WorkerStateRecord| entry_of(w));
    assert(entries_for(a, p) == a.filter(f).map_values(|w: WorkerStateRecord| entry_of(w)));
}

/// Writing a state out as group and worker records and joining the
/// records back gives the same groups with the same workers, up to
/// order, when no two groups share a perspective and no two workers
/// share an id: the records are then consistent, so the join succeeds.
pub proof fn lemma_records_round_trip(
    s: Seq<BiddingGroupRecord>,
    rs: Seq<GroupStateRecord>,
    ws: Seq<WorkerStateRecord>,
    t: Seq<GroupModel>,
)
    requires
        group_perspectives_distinct(s),
        worker_ids_distinct(s),
        rs.to_multiset() == group_records(s).to_multiset(),
        ws.to_multiset() == worker_records(s).to_multiset(),
    ensures
        records_consistent(rs, ws),
        joined(rs, ws, t) ==> same_groups(group_models(s), t),
{
    broadcast use vstd::seq_lib::group_to_multiset_ensures;

    let r = group_records(s);
    let w = worker_records(s);
    let m = group_models(s);
    assert(r.no_duplicates()) by {
        assert forall|i: int, j: int| 0 <= i < r.len() && 0 <= j < r.len() && i != j implies r[i]
            != r[j] by {
            if i < j {
                assert(s[i].perspective@ != s[j].perspective@);
            } else {
                assert(s[j].perspective@ != s[i].perspective@);
            }
        }
    }
    crate::perm::lemma_no_duplicates_perm(r, rs);
    assert(perspectives_unique(rs)) by {
        assert forall|a: int, b: int| 0 <= a < b < rs.len() implies (#[trigger] rs[a]).perspective@
            != (#[trigger] rs[b]).perspective@ by {
            crate::perm::lemma_contains_perm(rs, r, rs[a]);
            crate::perm::lemma_contains_perm(rs, r, rs[b]);
            let x = choose|x: int| 0 <= x < r.len() && r[x] == rs[a];
            let y = choose|y: int| 0 <= y < r.len() && r[y] == rs[b];
            if x < y {
                assert(s[x].perspective@ != s[y].perspective@);
            } else if y < x {
                assert(s[y].perspective@ != s[x].perspective@);
            }
        }
    }
    assert(w.no_duplicates()) by {
        assert forall|i: int, j: int| 0 <= i < w.len() && 0 <= j < w.len() && i != j implies w[i]
            != w[j] by {
            if i < j {
                assert(w[i].worker_id@ != w[j].worker_id@);
            } else {
                assert(w[j].worker_id@ != w[i].worker_id@);
            }
        }
    }
    crate::perm::lemma_no_duplicates_perm(w, ws);
    assert forall|i: int| 0 <= i < ws.len() implies !#[trigger] worker_bad(rs, ws, i) by {
        crate::perm::lemma_contains_perm(ws, w, ws[i]);
        let y = choose|y: int| 0 <= y < w.len() && w[y] == ws[i];
        assert forall|j: int| 0 <= j < i implies (#[trigger] ws[j]).worker_id@ != ws[i].worker_id@ by {
            crate::perm::lemma_contains_perm(ws, w, ws[j]);
            let x = choose|x: int| 0 <= x < w.len() && w[x] == ws[j];
            if x < y {
                assert(w[x].worker_id@ != w[y].worker_id@);
            } else if y < x {
                assert(w[y].worker_id@ != w[x].worker_id@);
            }
        }
        lemma_record_source(s, y);
        let g = choose|g: int| 0 <= g < s.len() && (#[trigger] s[g]).perspective == w[y].perspective;
        assert(r.contains(r[g]));
        crate::perm::lemma_contains_perm(r, rs, r[g]);
        let k = choose|k: int| 0 <= k < rs.len() && rs[k] == r[g];
        assert(rs[k].perspective@ == ws[i].perspective@);
    }
    if joined(rs, ws, t) {
        assert(r.len() == r.to_multiset().len());
        assert(rs.len() == rs.to_multiset().len());
        assert forall|j: int| 0 <= j < t.len() implies group_found(m, #[trigger] t[j]) by {
            assert(head_recorded(rs, model_head(t[j])));
            let i = choose|i: int| 0 <= i < rs.len() && record_head(rs[i]) == model_head(t[j]);
            assert(rs.contains(rs[i]));
            crate::perm::lemma_contains_perm(rs, r, rs[i]);
            let g = choose|g: int| 0 <= g < r.len() && r[g] == rs[i];
            let p = t[j].perspective@;
            assert forall|x: int| 0 <= x < s.len() && x != g implies (#[trigger] s[x]).perspective@ != p by {
                if x < g {
                    assert(s[x].perspective@ != s[g].perspective@);
                } else {
                    assert(s[g].perspective@ != s[x].perspective@);
                }
            }
            lemma_entries_for_group(s, g, p);
            lemma_entries_for_perm(ws, w, p);
            assert(m[g] == s[g]@);
            assert(same_group(m[g], t[j]));
        }
        assert forall|g: int| 0 <= g < m.len() implies group_found(t, #[trigger] m[g]) by {
            assert(r.contains(r[g]));
            crate::perm::lemma_contains_perm(r, rs, r[g]);
            let i = choose|i: int| 0 <= i < rs.len() && rs[i] == r[g];
            assert(head_modelled(t, record_head(rs[i])));
            let j = choose|j: int| 0 <= j < t.len() && model_head(t[j]) == record_head(rs[i]);
            let p = t[j].perspective@;
            assert forall|x: int| 0 <= x < s.len() && x != g implies (#[trigger] s[x]).perspective@ != p by {
                if x < g {
                    assert(s[x].perspective@ != s[g].perspective@);
                } else {
                    assert(s[g].perspective@ != s[x].perspective@);
                }
            }
            lemma_entries_for_group(s, g, p);
            lemma_entries_for_perm(ws, w, p);
            assert(m[g] == s[g]@);
            assert(same_group(t[j], m[g]));
        }
    }
}

} // verus!
