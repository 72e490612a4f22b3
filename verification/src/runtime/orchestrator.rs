//! The orchestrator's decisions on runtime state.
//!
//! Each operation of the orchestrator service reads state, decides, and
//! writes state back, with repository and filesystem work in between.
//! The decisions live here as functions from state and request to an
//! error or a new state; the service performs the surrounding work.

use vstd::prelude::*;
use vstd::string::*;

use super::boundary::{boundary_conflict, overlap_spec, runtime_relation_text};
use super::commit::CanonicalCommitHash;
use super::conflict::{blocks, conflict_free, lemma_forward_conflict_free, with_worker};
use super::error::RuntimeError;
use super::group::{
    cleared, deleted, discarded, forwarded, group_live, group_of, has_live_group, holds_worker,
    live_group_at, live_only, merge_entry, merged, retired, settle, state_holds, without_worker,
    worker_at, BiddingGroupRecord, GroupModel, StateFile, WorkerEntry,
};
use super::mailbox::{inbox_required_state, MessageKind};
use super::state::{state_name, ActivePerspectiveSummary, OrchestratorStatus, WorkerDetail, WorkerSummary};
use crate::sort::{keys_sorted, sort_by_text_key, TextKey};
use crate::rulebook::check::{CheckDecl, CheckName, CheckPolicy, CompiledChecks};
use crate::label::{labels_view, lookup};
use crate::text::ident_valid;
use super::state::{live, WorkerState};
use super::worker_id::{worker_id_result_spec, worker_id_valid, WorkerId};
use crate::label::Label;
use crate::num::{decimal, decimal_text, parse_u64, parse_u64_spec};
use crate::path_set::{strings_view, PathSet};
use crate::perspective::compile::CompiledPerspective;
use crate::perspective::name::PerspectiveName;
use crate::text::{chars_of, is_upper, push_char};

verus! {

/// Request to create one worker from a compiled perspective.
///
/// `worker_id` pins the runtime identity; without it one is allocated
/// from the perspective name.
#[derive(Debug, Clone, PartialEq, Eq)]
pub struct CreateWorker {
    /// Perspective to instantiate.
    pub perspective: PerspectiveName,
    /// Optional orchestrator-selected worker identity.
    pub worker_id: Option<WorkerId>,
    /// Optional initial `task` bundle for the worker inbox.
    pub task: Option<crate::bundle::BundlePayload>,
    /// Whether to replace an existing finalized workspace for the same
    /// explicit worker id.
    pub overwriting_worktree: bool,
}

impl CreateWorker {
    /// A create request for one perspective.
    pub fn new(perspective: PerspectiveName) -> (c: Self)
        ensures
            c.perspective == perspective,
            c.worker_id is None,
            c.task is None,
            !c.overwriting_worktree,
    {
        CreateWorker { perspective, worker_id: None, task: None, overwriting_worktree: false }
    }

    /// Pin the worker to one orchestrator-selected runtime identity.
    pub fn with_worker_id(self, worker_id: WorkerId) -> (c: Self)
        ensures
            c == (CreateWorker { worker_id: Some(worker_id), ..self }),
    {
        CreateWorker { worker_id: Some(worker_id), ..self }
    }

    /// Seed the new worker inbox with one initial `task` bundle.
    pub fn with_task(self, task: crate::bundle::BundlePayload) -> (c: Self)
        ensures
            c == (CreateWorker { task: Some(task), ..self }),
    {
        CreateWorker { task: Some(task), ..self }
    }

    /// Allow creation to replace an existing finalized workspace for the
    /// same explicit worker id.
    pub fn with_overwriting_worktree(self) -> (c: Self)
        ensures
            c == (CreateWorker { overwriting_worktree: true, ..self }),
    {
        CreateWorker { overwriting_worktree: true, ..self }
    }
}

/// Index `i` is the first live group a candidate boundary overlaps.
pub open spec fn first_block(
    gs: Seq<GroupModel>,
    p: Seq<char>,
    cr: Set<Seq<char>>,
    cw: Set<Seq<char>>,
    i: int,
) -> bool {
    &&& 0 <= i < gs.len()
    &&& blocks(gs, p, cr, cw, i)
    &&& forall|j: int| 0 <= j < i ==> !#[trigger] blocks(gs, p, cr, cw, j)
}

/// Whether `e` reports that the candidate boundary (`cr`, `cw`) for `p`
/// overlaps the active boundary of group `a`.
pub open spec fn conflict_error(
    e: RuntimeError,
    p: Seq<char>,
    cr: Set<Seq<char>>,
    cw: Set<Seq<char>>,
    a: GroupModel,
) -> bool {
    match e {
        RuntimeError::ConflictWithActiveBiddingGroup {
            perspective,
            blocking_perspective,
            relation,
            files,
        } => {
            &&& perspective@ == p
            &&& blocking_perspective@ == a.perspective@
            &&& overlap_spec(cr, cw, a.read, a.write) matches Some((rel, fs))
            &&& relation@ == runtime_relation_text(rel)
            &&& strings_view(files@).to_set() == fs
        },
        _ => false,
    }
}

/// Check a candidate boundary for a new bidding group against every live
/// group of another perspective; the first overlap is reported.
pub fn validate_create_boundary(
    perspective: &PerspectiveName,
    candidate: &CompiledPerspective,
    state: &StateFile,
) -> (r: Result<(), RuntimeError>)
    requires
        candidate.wf(),
        state.wf(),
    ensures
        r is Ok <==> forall|i: int|
            0 <= i < state@.len() ==> !#[trigger] blocks(
                state@,
                perspective@,
                candidate.read_set(),
                candidate.write_set(),
                i,
            ),
        r matches Err(e) ==> exists|i: int|
            #[trigger] first_block(
                state@,
                perspective@,
                candidate.read_set(),
                candidate.write_set(),
                i,
            ) && conflict_error(
                e,
                perspective@,
                candidate.read_set(),
                candidate.write_set(),
                state@[i],
            ),
{
    let ghost gs = state@;
    let ghost cr = candidate.read_set();
    let ghost cw = candidate.write_set();
    let mut i: usize = 0;
    while i < state.groups.len()
        invariant
            gs == state@,
            cr == candidate.read_set(),
            cw == candidate.write_set(),
            candidate.wf(),
            state.wf(),
            i <= state.groups.len(),
            forall|j: int| 0 <= j < i ==> !#[trigger] blocks(gs, perspective@, cr, cw, j),
        decreases state.groups.len() - i,
    {
        let g = &state.groups[i];
        assert(gs[i as int] == g@);
        assert(g.wf());
        if g.has_live_workers() && !g.perspective.same(perspective) {
            let active = CompiledPerspective::from_materialized_sets(
                g.read_set.clone(),
                g.write_set.clone(),
            );
            match boundary_conflict(perspective, candidate, &g.perspective, &active) {
                Some(e) => {
                    assert(first_block(gs, perspective@, cr, cw, i as int));
                    return Err(e);
                },
                None => {},
            }
        }
        i = i + 1;
    }
    Ok(())
}

/// ASCII lowercase of `c`.
pub open spec fn lower(c: char) -> char {
    if is_upper(c) {
        ((c as u32) + 32) as char
    } else {
        c
    }
}

/// The kebab-case form of an `UpperCamelCase` name: a hyphen before each
/// uppercase letter but the first character, every letter lowercased.
pub open spec fn kebab_of(s: Seq<char>) -> Seq<char>
    decreases s.len(),
{
    if s.len() == 0 {
        Seq::empty()
    } else {
        let prev = kebab_of(s.drop_last());
        let c = s.last();
        (if is_upper(c) && s.len() > 1 {
            prev.push('-')
        } else {
            prev
        }).push(lower(c))
    }
}

/// Convert an `UpperCamelCase` name to `kebab-case`.
pub fn camel_to_kebab(name: &str) -> (r: String)
    ensures
        r@ == kebab_of(name@),
{
    let cs = chars_of(name);
    let mut r = String::new();
    let mut i: usize = 0;
    while i < cs.len()
        invariant
            cs@ == name@,
            i <= cs.len(),
            r@ == kebab_of(name@.take(i as int)),
        decreases cs.len() - i,
    {
        let ch = cs[i];
        assert(name@.take(i + 1).drop_last() =~= name@.take(i as int));
        if 'A' <= ch && ch <= 'Z' && i > 0 {
            push_char(&mut r, '-');
        }
        let low = if 'A' <= ch && ch <= 'Z' {
            ((ch as u32) + 32) as u8 as char
        } else {
            ch
        };
        assert(low == lower(ch)) by {
            if is_upper(ch) {
                assert((((ch as u32) + 32) as u8) as char == ((ch as u32) + 32) as char);
            }
        }
        push_char(&mut r, low);
        i = i + 1;
    }
    assert(name@.take(cs.len() as int) =~= name@);
    r
}

/// The number after `prefix` in the id text `id`, when `id` starts with
/// `prefix` and the rest parses as a `u64`.
pub open spec fn suffix_number(id: Seq<char>, prefix: Seq<char>) -> Option<u64> {
    if prefix.len() <= id.len() && id.take(prefix.len() as int) == prefix {
        parse_u64_spec(id.skip(prefix.len() as int))
    } else {
        None
    }
}

/// Whether some group of perspective text `p` holds a worker with the
/// id text `id`.
pub open spec fn counted(gs: Seq<GroupModel>, p: Seq<char>, id: Seq<char>) -> bool {
    exists|g: int|
        0 <= g < gs.len() && (#[trigger] gs[g]).perspective@ == p && holds_worker(gs[g].workers, id)
}

/// The workers of every group, group by group.
pub open spec fn all_workers(gs: Seq<GroupModel>) -> Seq<WorkerEntry>
    decreases gs.len(),
{
    if gs.len() == 0 {
        Seq::empty()
    } else {
        all_workers(gs.drop_last()) + gs.last().workers
    }
}

/// The largest number after `prefix` among the ids in `ws` that belong
/// to perspective `p` in `gs`, or 0.
pub open spec fn suffix_max(
    ws: Seq<WorkerEntry>,
    gs: Seq<GroupModel>,
    p: Seq<char>,
    prefix: Seq<char>,
) -> nat
    decreases ws.len(),
{
    if ws.len() == 0 {
        0
    } else {
        let rest = suffix_max(ws.drop_last(), gs, p, prefix);
        let id = ws.last().worker_id@;
        if counted(gs, p, id) {
            match suffix_number(id, prefix) {
                Some(n) => if n > rest {
                    n as nat
                } else {
                    rest
                },
                None => rest,
            }
        } else {
            rest
        }
    }
}

/// The prefix of allocated ids for perspective text `p`.
pub open spec fn allocation_prefix(p: Seq<char>) -> Seq<char> {
    kebab_of(p).push('-')
}

/// The id text allocated for perspective text `p`: the prefix, then one
/// more than the largest number already used after it.
pub open spec fn allocation_text(gs: Seq<GroupModel>, p: Seq<char>) -> Seq<char> {
    let prefix = allocation_prefix(p);
    prefix + decimal(suffix_max(all_workers(gs), gs, p, prefix) + 1)
}

/// Whether the next allocated number fits in a `u64`.
pub open spec fn allocation_fits(gs: Seq<GroupModel>, p: Seq<char>) -> bool {
    suffix_max(all_workers(gs), gs, p, allocation_prefix(p)) < u64::MAX
}

/// Whether some group of perspective `perspective` holds a worker with
/// the id of `id`.
fn counted_exec(state: &StateFile, perspective: &PerspectiveName, id: &WorkerId) -> (b: bool)
    ensures
        b == counted(state@, perspective@, id@),
{
    let mut g: usize = 0;
    while g < state.groups.len()
        invariant
            g <= state.groups.len(),
            forall|j: int|
                0 <= j < g ==> !((#[trigger] state@[j]).perspective@ == perspective@ && holds_worker(
                    state@[j].workers,
                    id@,
                )),
        decreases state.groups.len() - g,
    {
        let grp = &state.groups[g];
        assert(state@[g as int] == grp@);
        if grp.perspective.same(perspective) && grp.worker_index(id).is_some() {
            return true;
        }
        g = g + 1;
    }
    false
}

/// The number after `prefix` in `id`, if `id` starts with `prefix` and
/// the rest parses as a `u64`.
fn suffix_number_exec(id: &str, prefix: &Vec<char>) -> (r: Option<u64>)
    ensures
        r == suffix_number(id@, prefix@),
{
    let cs = chars_of(id);
    if prefix.len() > cs.len() {
        return None;
    }
    let mut i: usize = 0;
    while i < prefix.len()
        invariant
            prefix.len() <= cs.len(),
            cs@ == id@,
            i <= prefix.len(),
            forall|j: int| 0 <= j < i ==> cs@[j] == prefix@[j],
        decreases prefix.len() - i,
    {
        if cs[i] != prefix[i] {
            assert(id@.take(prefix.len() as int)[i as int] != prefix@[i as int]);
            return None;
        }
        i = i + 1;
    }
    assert(id@.take(prefix.len() as int) =~= prefix@);
    let mut rest: Vec<char> = Vec::new();
    let mut k: usize = prefix.len();
    while k < cs.len()
        invariant
            prefix.len() <= k <= cs.len(),
            cs@ == id@,
            rest@ == id@.subrange(prefix.len() as int, k as int),
        decreases cs.len() - k,
    {
        rest.push(cs[k]);
        assert(rest@ =~= id@.subrange(prefix.len() as int, k + 1));
        k = k + 1;
    }
    assert(rest@ =~= id@.skip(prefix.len() as int));
    let text = crate::text::string_from_chars(&rest);
    parse_u64(text.as_str())
}

proof fn lemma_all_workers_push(gs: Seq<GroupModel>, g: int)
    requires
        0 <= g < gs.len(),
    ensures
        all_workers(gs.take(g + 1)) == all_workers(gs.take(g)) + gs[g].workers,
{
    assert(gs.take(g + 1).drop_last() =~= gs.take(g));
}

proof fn lemma_suffix_max_step(
    ws: Seq<WorkerEntry>,
    more: Seq<WorkerEntry>,
    k: int,
    gs: Seq<GroupModel>,
    p: Seq<char>,
    prefix: Seq<char>,
)
    requires
        0 <= k < more.len(),
    ensures
        suffix_max(ws + more.take(k + 1), gs, p, prefix) == ({
            let rest = suffix_max(ws + more.take(k), gs, p, prefix);
            let id = more[k].worker_id@;
            if counted(gs, p, id) {
                match suffix_number(id, prefix) {
                    Some(n) => if n > rest {
                        n as nat
                    } else {
                        rest
                    },
                    None => rest,
                }
            } else {
                rest
            }
        }),
{
    assert((ws + more.take(k + 1)).drop_last() =~= ws + more.take(k));
    assert((ws + more.take(k + 1)).last() == more[k]);
}

/// The largest number that follows the allocation prefix of
/// `perspective` among the workers of its groups, or 0.
fn largest_allocated_suffix(perspective: &PerspectiveName, state: &StateFile) -> (r: (u64, String))
    ensures
        r.0 == suffix_max(all_workers(state@), state@, perspective@, allocation_prefix(perspective@)),
        r.1@ == allocation_prefix(perspective@),
{
    let ghost gs = state@;
    let ghost p = perspective@;
    let mut prefix_text = camel_to_kebab(perspective.as_str());
    push_char(&mut prefix_text, '-');
    let prefix = chars_of(prefix_text.as_str());
    let ghost pre = prefix@;
    assert(pre == allocation_prefix(p));
    let mut best: u64 = 0;
    let mut g: usize = 0;
    while g < state.groups.len()
        invariant
            gs == state@,
            p == perspective@,
            pre == prefix@,
            pre == allocation_prefix(p),
            g <= state.groups.len(),
            best == suffix_max(all_workers(gs.take(g as int)), gs, p, pre),
        decreases state.groups.len() - g,
    {
        let grp = &state.groups[g];
        assert(gs[g as int] == grp@);
        let ghost base = all_workers(gs.take(g as int));
        let mut k: usize = 0;
        while k < grp.workers.len()
            invariant
                gs == state@,
                p == perspective@,
                pre == prefix@,
                gs[g as int] == grp@,
                base == all_workers(gs.take(g as int)),
                g < state.groups.len(),
                k <= grp.workers.len(),
                best == suffix_max(base + grp.workers@.take(k as int), gs, p, pre),
            decreases grp.workers.len() - k,
        {
            let w = &grp.workers[k];
            proof {
                lemma_suffix_max_step(base, grp.workers@, k as int, gs, p, pre);
            }
            if counted_exec(state, perspective, &w.worker_id) {
                match suffix_number_exec(w.worker_id.as_str(), &prefix) {
                    Some(n) => {
                        if n > best {
                            best = n;
                        }
                    },
                    None => {},
                }
            }
            k = k + 1;
        }
        proof {
            assert(grp.workers@.take(grp.workers@.len() as int) =~= grp.workers@);
            lemma_all_workers_push(gs, g as int);
        }
        g = g + 1;
    }
    assert(gs.take(gs.len() as int) =~= gs);
    (best, prefix_text)
}

/// Whether an id can be allocated for `perspective`: the largest
/// allocated number is below `u64::MAX`, so one more still fits.
pub fn allocation_available(perspective: &PerspectiveName, state: &StateFile) -> (b: bool)
    ensures
        b == allocation_fits(state@, perspective@),
{
    let (best, _) = largest_allocated_suffix(perspective, state);
    best < u64::MAX
}

/// Allocate the default worker id for a perspective: the kebab-case
/// perspective name, a hyphen, and one more than the largest number
/// already used after that prefix by the perspective's workers.
pub fn allocate_worker_id(perspective: &PerspectiveName, state: &StateFile) -> (r: Result<
    WorkerId,
    RuntimeError,
>)
    requires
        allocation_fits(state@, perspective@),
    ensures
        match r {
            Ok(w) => w@ == allocation_text(state@, perspective@) && worker_id_valid(w@),
            Err(RuntimeError::CheckFailed(_)) => !worker_id_valid(
                allocation_text(state@, perspective@),
            ),
            Err(_) => false,
        },
{
    let ghost gs = state@;
    let ghost p = perspective@;
    let (best, prefix_text) = largest_allocated_suffix(perspective, state);
    let next = best + 1;
    let digits = decimal_text(next);
    let mut text = prefix_text;
    text.append(digits.as_str());
    assert(text@ == allocation_text(gs, p));
    let r = WorkerId::new(text.as_str());
    match r {
        Ok(w) => Ok(w),
        Err(_) => Err(RuntimeError::CheckFailed(String::from_str("failed to allocate worker id"))),
    }
}

/// Whether the workspace of the finalized worker `previous`, whose id a
/// new worker takes over, must be removed first (`Ok(true)`) or is not
/// there (`Ok(false)`). A workspace that still exists is only replaced
/// when the create asks to overwrite it; otherwise the create is
/// refused.
pub fn workspace_before_create(previous: &WorkerEntry, exists: bool, overwriting: bool) -> (r: Result<
    bool,
    RuntimeError,
>)
    ensures
        match r {
            Ok(remove) => remove == exists && (exists ==> overwriting),
            Err(e) => exists && !overwriting && (e matches RuntimeError::ExistingWorkerWorkspace {
                worker_id,
                state,
                worktree_path,
            } && worker_id == previous.worker_id && state == previous.state && worktree_path@
                == previous.worktree_path@),
        },
{
    if !exists {
        return Ok(false);
    }
    if !overwriting {
        return Err(
            RuntimeError::ExistingWorkerWorkspace {
                worker_id: previous.worker_id.dup(),
                state: previous.state,
                worktree_path: previous.worktree_path.clone(),
            },
        );
    }
    Ok(true)
}

/// Resolve the identity of a worker about to be created.
///
/// An explicit id held by a live worker is refused; one held by a
/// finalized worker is returned with that worker's entry, which the new
/// worker replaces. Without an explicit id one is allocated.
pub fn resolve_create_worker_id(
    perspective: &PerspectiveName,
    worker_id: Option<WorkerId>,
    state: &StateFile,
) -> (r: Result<(WorkerId, Option<WorkerEntry>), RuntimeError>)
    requires
        worker_id is None ==> allocation_fits(state@, perspective@),
    ensures
        match worker_id {
            Some(id) => match r {
                Ok((w, prev)) => w == id && match prev {
                    Some(e) => exists|g: int, k: int|
                        group_of(state@, id@, g) && worker_at(state@[g].workers, id@, k) && e
                            == #[trigger] state@[g].workers[k] && !live(e.state),
                    None => !state_holds(state@, id@),
                },
                Err(RuntimeError::WorkerIdExists(w)) => w == id && exists|g: int, k: int|
                    group_of(state@, id@, g) && worker_at(state@[g].workers, id@, k) && live(
                        (#[trigger] state@[g].workers[k]).state,
                    ),
                Err(_) => false,
            },
            None => match r {
                Ok((w, prev)) => prev is None && w@ == allocation_text(state@, perspective@)
                    && worker_id_valid(w@),
                Err(RuntimeError::CheckFailed(_)) => !worker_id_valid(
                    allocation_text(state@, perspective@),
                ),
                Err(_) => false,
            },
        },
{
    match worker_id {
        Some(id) => {
            match state.worker_location(&id) {
                Some((g, k)) => {
                    let entry = &state.groups[g].workers[k];
                    assert(state@[g as int] == state.groups@[g as int]@);
                    if entry.state.is_live() {
                        return Err(RuntimeError::WorkerIdExists(id));
                    }
                    let e = entry.clone();
                    Ok((id, Some(e)))
                },
                None => Ok((id, None)),
            }
        },
        None => match allocate_worker_id(perspective, state) {
            Ok(w) => Ok((w, None)),
            Err(e) => Err(e),
        },
    }
}

impl StateFile {
    /// Add a worker to the live bidding group of its perspective, or form
    /// a new group with the given base commit and boundary; returns the
    /// group's position.
    pub fn join_or_form(
        &mut self,
        perspective: PerspectiveName,
        base_commit: CanonicalCommitHash,
        read_set: PathSet,
        write_set: PathSet,
        entry: WorkerEntry,
    ) -> (idx: usize)
        requires
            old(self).wf(),
            read_set.wf(),
            write_set.wf(),
        ensures
            final(self).wf(),
            final(self)@ == with_worker(
                old(self)@,
                perspective,
                base_commit,
                read_set.set(),
                write_set.set(),
                entry,
            ),
            idx < final(self)@.len(),
            final(self)@[idx as int].perspective@ == perspective@,
            conflict_free(old(self)@) && (!has_live_group(old(self)@, perspective@) ==> forall|i: int|
                0 <= i < old(self)@.len() ==> !#[trigger] blocks(
                    old(self)@,
                    perspective@,
                    read_set.set(),
                    write_set.set(),
                    i,
                )) ==> conflict_free(final(self)@),
    {
        let ghost gs = self@;
        proof {
            if conflict_free(gs) && (!has_live_group(gs, perspective@) ==> forall|i: int|
                0 <= i < gs.len() ==> !#[trigger] blocks(gs, perspective@, read_set.set(), write_set.set(), i)) {
                crate::runtime::conflict::lemma_with_worker_conflict_free(
                    gs,
                    perspective,
                    base_commit,
                    read_set.set(),
                    write_set.set(),
                    entry,
                );
            }
        }
        match self.live_group_index(&perspective) {
            Some(i) => {
                proof {
                    crate::runtime::conflict::lemma_first_live_group(gs, perspective@);
                    let c = choose|c: int| live_group_at(gs, perspective@, c);
                    crate::runtime::conflict::lemma_live_group_unique(gs, perspective@, c, i as int);
                }
                let ghost before = self.groups@;
                let mut group = self.groups.remove(i);
                group.workers.push(entry);
                self.groups.insert(i, group);
                proof {
                    assert(self.groups@ =~= before.update(i as int, group));
                    assert(self@ =~= gs.update(
                        i as int,
                        GroupModel { workers: gs[i as int].workers.push(entry), ..gs[i as int] },
                    )) by {
                        assert forall|q: int| 0 <= q < self@.len() implies #[trigger] self@[q]
                            == gs.update(
                            i as int,
                            GroupModel { workers: gs[i as int].workers.push(entry), ..gs[i as int] },
                        )[q] by {
                            if q == i {
                                assert(self@[q] =~= GroupModel {
                                    workers: gs[i as int].workers.push(entry),
                                    ..gs[i as int]
                                });
                            } else {
                                assert(self.groups@[q] == before[q]);
                            }
                        }
                    }
                    assert forall|q: int| 0 <= q < self.groups@.len() implies (
                    #[trigger] self.groups@[q]).wf() by {
                        if q != i {
                            assert(self.groups@[q] == before[q]);
                        }
                    }
                }
                i
            },
            None => {
                let ghost before = self.groups@;
                let mut workers: Vec<WorkerEntry> = Vec::new();
                workers.push(entry);
                let group = BiddingGroupRecord {
                    perspective,
                    base_commit,
                    read_set,
                    write_set,
                    workers,
                };
                self.groups.push(group);
                proof {
                    assert(self@ =~= gs.push(
                        GroupModel {
                            perspective,
                            base_commit,
                            read: read_set.set(),
                            write: write_set.set(),
                            workers: seq![entry],
                        },
                    )) by {
                        assert(group@ =~= GroupModel {
                            perspective,
                            base_commit,
                            read: read_set.set(),
                            write: write_set.set(),
                            workers: seq![entry],
                        });
                    }
                    assert forall|q: int| 0 <= q < self.groups@.len() implies (
                    #[trigger] self.groups@[q]).wf() by {
                        if q < before.len() {
                            assert(self.groups@[q] == before[q]);
                        }
                    }
                }
                self.groups.len() - 1
            },
        }
    }
}


/// The text of the discard operation in state errors.
pub open spec fn discard_operation() -> Seq<char> {
    "discard worker"@
}

/// The states a worker may be discarded from.
pub open spec fn discardable(s: WorkerState) -> bool {
    s is Active || s is Blocked || s is Committed
}

/// Whether `e` reports that no worker has the id text `id`.
pub open spec fn unknown_worker(e: RuntimeError, id: Seq<char>) -> bool {
    e matches RuntimeError::UnknownWorker(s) && s@ == id
}

/// Whether `e` reports the state `actual` refused by `operation`, which
/// expects `expected`.
pub open spec fn invalid_state(
    e: RuntimeError,
    operation: Seq<char>,
    expected: Seq<char>,
    actual: WorkerState,
) -> bool {
    e matches RuntimeError::InvalidState { operation: o, expected: x, actual: a } && o@ == operation
        && x@ == expected && a == actual
}

/// Whether `e` reports that worker `id`, in state `state`, has no
/// submitted commit recorded.
pub open spec fn missing_head(e: RuntimeError, id: Seq<char>, state: WorkerState) -> bool {
    e matches RuntimeError::MissingSubmittedHeadCommit { worker_id: w, state: s } && w@ == id && s
        == state
}

/// Whether `(g, k)` locates worker `id`: the first group holding it, and
/// the first matching entry there.
pub open spec fn located(gs: Seq<GroupModel>, id: Seq<char>, g: int, k: int) -> bool {
    group_of(gs, id, g) && worker_at(gs[g].workers, id, k)
}

/// A worker id is located at one place at most.
pub proof fn lemma_located_unique(gs: Seq<GroupModel>, id: Seq<char>, g: int, k: int, g2: int, k2: int)
    requires
        located(gs, id, g, k),
        located(gs, id, g2, k2),
    ensures
        g == g2,
        k == k2,
{
    if g < g2 {
        assert(!holds_worker(gs[g].workers, id));
        assert(gs[g].workers[k].worker_id@ == id);
    } else if g2 < g {
        assert(!holds_worker(gs[g2].workers, id));
        assert(gs[g2].workers[k2].worker_id@ == id);
    }
    if k < k2 {
        assert(gs[g].workers[k].worker_id@ != id);
    } else if k2 < k {
        assert(gs[g].workers[k2].worker_id@ != id);
    }
}

/// Discarding the worker at `(g, k)` succeeds exactly when it is `ACTIVE`,
/// `BLOCKED` or `COMMITTED`; it then becomes `DISCARDED` with no
/// submitted commit, keeps its id and worktree, and no other worker or
/// group of another position changes.
pub proof fn law_discard_from_live_states(gs: Seq<GroupModel>, g: int, k: int)
    requires
        0 <= g < gs.len(),
        0 <= k < gs[g].workers.len(),
    ensures
        discardable(gs[g].workers[k].state) <==> (gs[g].workers[k].state is Active
            || gs[g].workers[k].state is Blocked || gs[g].workers[k].state is Committed),
        discarded(gs, g, k)[g].workers[k].state is Discarded,
        discarded(gs, g, k)[g].workers[k].submitted_head_commit is None,
        discarded(gs, g, k)[g].workers[k].worker_id == gs[g].workers[k].worker_id,
        discarded(gs, g, k)[g].workers[k].worktree_path == gs[g].workers[k].worktree_path,
        forall|j: int| 0 <= j < gs[g].workers.len() && j != k ==> discarded(gs, g, k)[g].workers[j]
            == gs[g].workers[j],
        forall|h: int| 0 <= h < gs.len() && h != g ==> discarded(gs, g, k)[h] == gs[h],
{
}

/// Replace group `g`, taken out with `Vec::remove`, by `group`.
pub(crate) proof fn lemma_reinsert(before: Seq<BiddingGroupRecord>, g: int, group: BiddingGroupRecord)
    requires
        0 <= g < before.len(),
    ensures
        before.remove(g).insert(g, group) == before.update(g, group),
{
    assert(before.remove(g).insert(g, group) =~= before.update(g, group));
}

impl StateFile {
    /// Put `group` back at position `g` after it was taken out.
    pub(crate) fn reinsert(&mut self, g: usize, group: BiddingGroupRecord)
        requires
            g <= old(self).groups@.len(),
        ensures
            final(self).groups@ == old(self).groups@.insert(g as int, group),
    {
        self.groups.insert(g, group);
    }

    /// Discard a worker: it must be `ACTIVE`, `BLOCKED` or `COMMITTED`.
    /// Its submitted commit is cleared, and its group's boundary too when
    /// no live worker is left. Returns the worker's perspective.
    pub fn discard_worker(&mut self, worker_id: &WorkerId) -> (r: Result<PerspectiveName, RuntimeError>)
        requires
            old(self).wf(),
        ensures
            final(self).wf(),
            conflict_free(old(self)@) ==> conflict_free(final(self)@),
            match r {
                Ok(p) => exists|g: int, k: int|
                    located(old(self)@, worker_id@, g, k) && discardable(
                        (#[trigger] old(self)@[g].workers[k]).state,
                    ) && final(self)@ == discarded(old(self)@, g, k) && p == old(self)@[g].perspective,
                Err(e) => final(self)@ == old(self)@ && (unknown_worker(e, worker_id@) && !state_holds(
                    old(self)@,
                    worker_id@,
                ) || exists|g: int, k: int|
                    located(old(self)@, worker_id@, g, k) && !discardable(
                        (#[trigger] old(self)@[g].workers[k]).state,
                    ) && invalid_state(
                        e,
                        discard_operation(),
                        "ACTIVE, BLOCKED, or COMMITTED"@,
                        old(self)@[g].workers[k].state,
                    )),
            },
            forall|g: int, k: int|
                located(old(self)@, worker_id@, g, k) && ((#[trigger] old(self)@[g].workers[k]).state
                    is Active || old(self)@[g].workers[k].state is Blocked
                    || old(self)@[g].workers[k].state is Committed) ==> r is Ok
                    && final(self)@[g].workers[k].state is Discarded,
    {
        let ghost gs = self@;
        let (g, k) = match self.worker_location(worker_id) {
            Some(loc) => loc,
            None => {
                return Err(RuntimeError::UnknownWorker(String::from_str(worker_id.as_str())));
            },
        };
        assert(gs[g as int] == self.groups@[g as int]@);
        proof {
            if conflict_free(gs) {
                crate::runtime::conflict::lemma_discard_conflict_free(gs, g as int, k as int);
            }
        }
        let current = self.groups[g].workers[k].state;
        if !(current == WorkerState::Active || current == WorkerState::Blocked || current
            == WorkerState::Committed) {
            proof {
                assert forall|g2: int, k2: int| located(gs, worker_id@, g2, k2) implies !((
                #[trigger] gs[g2].workers[k2]).state is Active || gs[g2].workers[k2].state is Blocked
                    || gs[g2].workers[k2].state is Committed) by {
                    lemma_located_unique(gs, worker_id@, g as int, k as int, g2, k2);
                }
            }
            return Err(
                RuntimeError::InvalidState {
                    operation: "discard worker",
                    expected: "ACTIVE, BLOCKED, or COMMITTED",
                    actual: current,
                },
            );
        }
        let ghost before = self.groups@;
        let mut group = self.groups.remove(g);
        assert(group == before[g as int]);
        let mut e = group.workers[k].clone();
        e.state = WorkerState::Discarded;
        e.submitted_head_commit = None;
        assert(e == retired(gs[g as int].workers[k as int], WorkerState::Discarded));
        group.workers.set(k, e);
        let ghost mid = group@;
        assert(mid =~= GroupModel {
            workers: gs[g as int].workers.update(
                k as int,
                retired(gs[g as int].workers[k as int], WorkerState::Discarded),
            ),
            ..gs[g as int]
        });
        if !group.has_live_workers() {
            group.clear_boundary();
        }
        assert(group@ == settle(mid));
        let perspective = group.perspective.dup();
        self.reinsert(g, group);
        proof {
            lemma_reinsert(before, g as int, group);
            assert(self@ =~= discarded(gs, g as int, k as int)) by {
                assert forall|q: int| 0 <= q < self@.len() implies #[trigger] self@[q] == discarded(
                    gs,
                    g as int,
                    k as int,
                )[q] by {
                    if q != g {
                        assert(self.groups@[q] == before[q]);
                    }
                }
            }
            assert forall|q: int| 0 <= q < self.groups@.len() implies (
            #[trigger] self.groups@[q]).wf() by {
                if q != g {
                    assert(self.groups@[q] == before[q]);
                }
            }
            assert forall|g2: int, k2: int| located(gs, worker_id@, g2, k2) implies self@[g2].workers[k2].state
                is Discarded by {
                lemma_located_unique(gs, worker_id@, g as int, k as int, g2, k2);
                law_discard_from_live_states(gs, g as int, k as int);
            }
        }
        Ok(perspective)
    }

    /// Check that a worker may be merged: it exists, is `COMMITTED`, and
    /// has a submitted commit. Returns its location.
    pub fn check_merge(&self, worker_id: &WorkerId) -> (r: Result<(usize, usize), RuntimeError>)
        ensures
            match r {
                Ok((g, k)) => located(self@, worker_id@, g as int, k as int)
                    && self@[g as int].workers[k as int].state is Committed
                    && self@[g as int].workers[k as int].submitted_head_commit is Some,
                Err(e) => unknown_worker(e, worker_id@) && !state_holds(self@, worker_id@) || exists|
                    g: int,
                    k: int,
                |
                    located(self@, worker_id@, g, k) && ({
                        let w = #[trigger] self@[g].workers[k];
                        ||| !(w.state is Committed) && invalid_state(
                            e,
                            "merge worker"@,
                            "COMMITTED"@,
                            w.state,
                        )
                        ||| w.state is Committed && w.submitted_head_commit is None
                            && missing_head(e, worker_id@, w.state)
                    }),
            },
    {
        let (g, k) = match self.worker_location(worker_id) {
            Some(loc) => loc,
            None => {
                return Err(RuntimeError::UnknownWorker(String::from_str(worker_id.as_str())));
            },
        };
        assert(self@[g as int] == self.groups@[g as int]@);
        let w = &self.groups[g].workers[k];
        if w.state != WorkerState::Committed {
            return Err(
                RuntimeError::InvalidState {
                    operation: "merge worker",
                    expected: "COMMITTED",
                    actual: w.state,
                },
            );
        }
        if w.submitted_head_commit.is_none() {
            return Err(
                RuntimeError::MissingSubmittedHeadCommit { worker_id: w.worker_id.clone(), state: w.state },
            );
        }
        Ok((g, k))
    }

    /// Record a merge in group `g`: the merged worker becomes `MERGED`,
    /// every other live worker of the group is discarded, and the group's
    /// boundary is cleared.
    pub fn mark_merged(&mut self, g: usize, worker_id: &WorkerId)
        requires
            old(self).wf(),
            g < old(self)@.len(),
        ensures
            final(self).wf(),
            final(self)@ == merged(old(self)@, g as int, worker_id@),
            conflict_free(old(self)@) ==> conflict_free(final(self)@),
    {
        let ghost gs = self@;
        proof {
            if conflict_free(gs) {
                crate::runtime::conflict::lemma_merge_conflict_free(gs, g as int, worker_id@);
            }
        }
        let ghost id = worker_id@;
        let ghost before = self.groups@;
        let mut group = self.groups.remove(g);
        assert(group@ == gs[g as int]);
        let ghost ws = group.workers@;
        let n = group.workers.len();
        let mut k: usize = 0;
        while k < n
            invariant
                n == ws.len(),
                k <= n,
                group.workers@.len() == n,
                ws == gs[g as int].workers,
                id == worker_id@,
                group.perspective == gs[g as int].perspective,
                group.base_commit == gs[g as int].base_commit,
                forall|q: int| 0 <= q < k ==> #[trigger] group.workers@[q] == merge_entry(ws[q], id),
                forall|q: int| k <= q < n ==> #[trigger] group.workers@[q] == ws[q],
            decreases n - k,
        {
            let mut e = group.workers[k].clone();
            if e.worker_id.same(worker_id) {
                e.state = WorkerState::Merged;
            } else if e.state.is_live() {
                e.state = WorkerState::Discarded;
                e.submitted_head_commit = None;
            }
            assert(e == merge_entry(ws[k as int], id));
            group.workers.set(k, e);
            k = k + 1;
        }
        group.clear_boundary();
        assert(group@ =~= cleared(
            GroupModel { workers: ws.map_values(|e: WorkerEntry| merge_entry(e, id)), ..gs[g as int] },
        )) by {
            assert(group.workers@ =~= ws.map_values(|e: WorkerEntry| merge_entry(e, id)));
        }
        self.reinsert(g, group);
        proof {
            lemma_reinsert(before, g as int, group);
            assert(self@ =~= merged(gs, g as int, id)) by {
                assert forall|q: int| 0 <= q < self@.len() implies #[trigger] self@[q] == merged(
                    gs,
                    g as int,
                    id,
                )[q] by {
                    if q != g {
                        assert(self.groups@[q] == before[q]);
                    }
                }
            }
            assert forall|q: int| 0 <= q < self.groups@.len() implies (
            #[trigger] self.groups@[q]).wf() by {
                if q != g {
                    assert(self.groups@[q] == before[q]);
                }
            }
        }
    }

    /// Check that a worker's workspace may be deleted: it exists and is
    /// `MERGED` or `DISCARDED`. Returns its location.
    pub fn check_delete(&self, worker_id: &WorkerId) -> (r: Result<(usize, usize), RuntimeError>)
        ensures
            match r {
                Ok((g, k)) => located(self@, worker_id@, g as int, k as int) && !live(
                    self@[g as int].workers[k as int].state,
                ),
                Err(e) => unknown_worker(e, worker_id@) && !state_holds(self@, worker_id@) || exists|
                    g: int,
                    k: int,
                |
                    located(self@, worker_id@, g, k) && live(
                        (#[trigger] self@[g].workers[k]).state,
                    ) && invalid_state(
                        e,
                        "delete worker workspace"@,
                        "MERGED or DISCARDED"@,
                        self@[g].workers[k].state,
                    ),
            },
    {
        let (g, k) = match self.worker_location(worker_id) {
            Some(loc) => loc,
            None => {
                return Err(RuntimeError::UnknownWorker(String::from_str(worker_id.as_str())));
            },
        };
        assert(self@[g as int] == self.groups@[g as int]@);
        let st = self.groups[g].workers[k].state;
        if st.is_live() {
            return Err(
                RuntimeError::InvalidState {
                    operation: "delete worker workspace",
                    expected: "MERGED or DISCARDED",
                    actual: st,
                },
            );
        }
        Ok((g, k))
    }

    /// Remove the entries of a worker from group `g`, then drop groups
    /// left without workers.
    pub fn delete_worker_entry(&mut self, g: usize, worker_id: &WorkerId)
        requires
            old(self).wf(),
            g < old(self)@.len(),
        ensures
            final(self).wf(),
            final(self)@ == deleted(old(self)@, g as int, worker_id@),
            conflict_free(old(self)@) ==> conflict_free(final(self)@),
    {
        let ghost gs = self@;
        proof {
            if conflict_free(gs) {
                crate::runtime::conflict::lemma_delete_conflict_free(gs, g as int, worker_id@);
            }
        }
        let ghost before = self.groups@;
        let mut group = self.groups.remove(g);
        assert(group@ == gs[g as int]);
        group.retain_other_workers(worker_id);
        self.reinsert(g, group);
        proof {
            lemma_reinsert(before, g as int, group);
            let upd = gs.update(
                g as int,
                GroupModel { workers: without_worker(gs[g as int].workers, worker_id@), ..gs[g as int] },
            );
            assert(self@ =~= upd) by {
                assert forall|q: int| 0 <= q < self@.len() implies #[trigger] self@[q] == upd[q] by {
                    if q != g {
                        assert(self.groups@[q] == before[q]);
                    }
                }
            }
            assert forall|q: int| 0 <= q < self.groups@.len() implies (
            #[trigger] self.groups@[q]).wf() by {
                if q != g {
                    assert(self.groups@[q] == before[q]);
                }
            }
        }
        self.gc_empty_groups();
    }

    /// Move group `g` to a new base commit and boundary.
    pub fn apply_forward(
        &mut self,
        g: usize,
        base_commit: CanonicalCommitHash,
        target: &CompiledPerspective,
    )
        requires
            old(self).wf(),
            target.wf(),
            g < old(self)@.len(),
            forall|i: int|
                0 <= i < old(self)@.len() && i != g ==> !#[trigger] blocks(
                    old(self)@,
                    old(self)@[g as int].perspective@,
                    target.read_set(),
                    target.write_set(),
                    i,
                ),
        ensures
            final(self).wf(),
            conflict_free(old(self)@) ==> conflict_free(final(self)@),
            final(self)@ == forwarded(
                old(self)@,
                g as int,
                base_commit,
                target.read_set(),
                target.write_set(),
            ),
    {
        let ghost gs = self@;
        let ghost before = self.groups@;
        let mut group = self.groups.remove(g);
        assert(group@ == gs[g as int]);
        group.base_commit = base_commit;
        group.read_set = target.read().clone();
        group.write_set = target.write().clone();
        self.reinsert(g, group);
        proof {
            lemma_reinsert(before, g as int, group);
            let f = forwarded(gs, g as int, base_commit, target.read_set(), target.write_set());
            assert(self@ =~= f) by {
                assert forall|q: int| 0 <= q < self@.len() implies #[trigger] self@[q] == f[q] by {
                    if q != g {
                        assert(self.groups@[q] == before[q]);
                    } else {
                        assert(self@[q] =~= f[q]);
                    }
                }
            }
            assert forall|q: int| 0 <= q < self.groups@.len() implies (
            #[trigger] self.groups@[q]).wf() by {
                if q != g {
                    assert(self.groups@[q] == before[q]);
                }
            }
            if conflict_free(gs) {
                lemma_forward_conflict_free(
                    gs,
                    g as int,
                    base_commit,
                    target.read_set(),
                    target.write_set(),
                );
            }
        }
    }

    /// Forward group `g` to `base_commit` and the boundary `target` when
    /// `target` keeps the group's boundary and overlaps no live group of
    /// another perspective; otherwise report why (as
    /// [`check_forward_boundary`] does) and change nothing.
    pub fn forward_checked(
        &mut self,
        g: usize,
        base_commit: CanonicalCommitHash,
        target: &CompiledPerspective,
    ) -> (r: Result<(), RuntimeError>)
        requires
            old(self).wf(),
            target.wf(),
            g < old(self)@.len(),
        ensures
            final(self).wf(),
            r is Ok ==> old(self)@[g as int].read.subset_of(target.read_set()) && old(self)@[g as int].write.subset_of(
                target.write_set(),
            ),
            r is Ok <==> widens(old(self)@[g as int], target.read_set(), target.write_set())
                && forall|i: int|
                0 <= i < old(self)@.len() ==> !#[trigger] blocks(
                    old(self)@,
                    old(self)@[g as int].perspective@,
                    target.read_set(),
                    target.write_set(),
                    i,
                ),
            r is Ok ==> final(self)@ == forwarded(
                old(self)@,
                g as int,
                base_commit,
                target.read_set(),
                target.write_set(),
            ),
            r is Err ==> final(self)@ == old(self)@,
            conflict_free(old(self)@) ==> conflict_free(final(self)@),
    {
        let perspective = self.groups[g].perspective.dup();
        assert(perspective@ == self@[g as int].perspective@);
        match check_forward_boundary(&perspective, target, self, g) {
            Ok(()) => {
                self.apply_forward(g, base_commit, target);
                Ok(())
            },
            Err(e) => Err(e),
        }
    }
}


/// The union of the read and write sets of every live group: the files
/// the orchestrator may not commit to.
pub open spec fn exclusion(gs: Seq<GroupModel>) -> Set<Seq<char>> {
    Set::new(
        |f: Seq<char>|
            exists|i: int|
                0 <= i < gs.len() && group_live(#[trigger] gs[i]) && (gs[i].read.contains(f)
                    || gs[i].write.contains(f)),
    )
}

/// The exclusion set of a state.
pub fn collect_exclusion_set(state: &StateFile) -> (r: PathSet)
    requires
        state.wf(),
    ensures
        r.wf(),
        r.set() == exclusion(state@),
{
    let ghost gs = state@;
    let mut r = PathSet::new();
    let mut i: usize = 0;
    while i < state.groups.len()
        invariant
            gs == state@,
            state.wf(),
            i <= state.groups.len(),
            r.wf(),
            r.set() == exclusion(gs.take(i as int)),
        decreases state.groups.len() - i,
    {
        let g = &state.groups[i];
        assert(gs[i as int] == g@);
        assert(g.wf());
        let ghost before = r.set();
        if g.has_live_workers() {
            let r1 = r.union(&g.read_set);
            r = r1.union(&g.write_set);
        }
        proof {
            assert forall|f: Seq<char>| r.set().contains(f) == exclusion(gs.take(i + 1)).contains(f) by {
                if exclusion(gs.take(i + 1)).contains(f) {
                    let j = choose|j: int|
                        0 <= j < i + 1 && group_live(#[trigger] gs.take(i + 1)[j]) && (gs.take(
                            i + 1,
                        )[j].read.contains(f) || gs.take(i + 1)[j].write.contains(f));
                    if j < i {
                        assert(gs.take(i as int)[j] == gs.take(i + 1)[j]);
                        assert(exclusion(gs.take(i as int)).contains(f));
                    }
                }
                if before.contains(f) {
                    let j = choose|j: int|
                        0 <= j < i && group_live(#[trigger] gs.take(i as int)[j]) && (gs.take(
                            i as int,
                        )[j].read.contains(f) || gs.take(i as int)[j].write.contains(f));
                    assert(gs.take(i as int)[j] == gs.take(i + 1)[j]);
                }
                if group_live(gs[i as int]) && (gs[i as int].read.contains(f) || gs[i as int].write.contains(f)) {
                    assert(gs.take(i + 1)[i as int] == gs[i as int]);
                }
            }
            assert(r.set() =~= exclusion(gs.take(i + 1)));
        }
        i = i + 1;
    }
    assert(gs.take(state.groups.len() as int) =~= gs);
    r
}

/// The operation label used for an orchestrator-authored inbox bundle.
pub open spec fn inbox_operation_text(kind: MessageKind) -> Seq<char> {
    match kind {
        MessageKind::Hint => "publish hint bundle"@,
        MessageKind::Resolve => "publish resolve bundle"@,
        MessageKind::Revise => "publish revise bundle"@,
        _ => "publish inbox bundle"@,
    }
}

/// Stable operation label for orchestrator-authored inbox bundles.
pub fn inbox_publish_operation(kind: MessageKind) -> (s: &'static str)
    ensures
        s@ == inbox_operation_text(kind),
{
    match kind {
        MessageKind::Hint => "publish hint bundle",
        MessageKind::Resolve => "publish resolve bundle",
        MessageKind::Revise => "publish revise bundle",
        _ => "publish inbox bundle",
    }
}

/// Check that a worker in `state` may receive a follow-up inbox bundle of
/// `kind`: a hint needs `ACTIVE`, a resolve `BLOCKED`, a revise
/// `COMMITTED`.
pub fn inbox_publish_check(kind: MessageKind, state: WorkerState) -> (r: Result<(), RuntimeError>)
    requires
        inbox_required_state(kind) is Some,
    ensures
        r is Ok <==> inbox_required_state(kind) == Some(state),
        kind is Hint ==> (r is Ok <==> state is Active),
        kind is Resolve ==> (r is Ok <==> state is Blocked),
        kind is Revise ==> (r is Ok <==> state is Committed),
        r matches Err(e) ==> invalid_state(
            e,
            inbox_operation_text(kind),
            state_name(inbox_required_state(kind)->0),
            state,
        ),
{
    let expected = match kind.required_worker_state_for_inbox_publication() {
        Some(s) => s,
        None => {
            return Ok(());
        },
    };
    if state == expected {
        Ok(())
    } else {
        Err(
            RuntimeError::InvalidState {
                operation: inbox_publish_operation(kind),
                expected: expected.as_str(),
                actual: state,
            },
        )
    }
}

impl TextKey for (WorkerId, WorkerState) {
    open spec fn text_key(&self) -> Seq<char> {
        self.0@
    }

    fn key_text(&self) -> (r: &str) {
        self.0.as_str()
    }
}

impl TextKey for WorkerSummary {
    open spec fn text_key(&self) -> Seq<char> {
        self.worker_id@
    }

    fn key_text(&self) -> (r: &str) {
        self.worker_id.as_str()
    }
}

impl TextKey for ActivePerspectiveSummary {
    open spec fn text_key(&self) -> Seq<char> {
        self.perspective@
    }

    fn key_text(&self) -> (r: &str) {
        self.perspective.as_str()
    }
}

/// The live workers of `ws` that are not `BLOCKED`, with their states.
pub open spec fn unblocked(ws: Seq<WorkerEntry>) -> Seq<(WorkerId, WorkerState)> {
    ws.filter(|w: WorkerEntry| live(w.state) && !(w.state is Blocked)).map_values(
        |w: WorkerEntry| (w.worker_id, w.state),
    )
}

/// Whether `e` reports that forwarding perspective `p` needs its live
/// workers `expected` (in any order) to be blocked, listing them by id.
pub open spec fn requires_blocked(
    e: RuntimeError,
    p: Seq<char>,
    expected: Seq<(WorkerId, WorkerState)>,
) -> bool {
    e matches RuntimeError::PerspectiveForwardRequiresBlocked { perspective, workers }
        && perspective@ == p && workers@.to_multiset() == expected.to_multiset() && keys_sorted(
        workers@,
    )
}

/// Whether `e` reports that perspective `p` has no live group to forward.
pub open spec fn missing_group(e: RuntimeError, p: Seq<char>) -> bool {
    e matches RuntimeError::PerspectiveForwardMissingGroup { perspective } && perspective@ == p
}

impl StateFile {
    /// Find the live group of a perspective that can be forwarded: every
    /// live worker in it must be `BLOCKED`. Returns its position.
    pub fn forward_group(&self, perspective: &PerspectiveName) -> (r: Result<usize, RuntimeError>)
        ensures
            match r {
                Ok(g) => live_group_at(self@, perspective@, g as int) && unblocked(
                    self@[g as int].workers,
                ).len() == 0,
                Err(e) => missing_group(e, perspective@) && !has_live_group(self@, perspective@)
                    || exists|g: int|
                    live_group_at(self@, perspective@, g) && unblocked(
                        (#[trigger] self@[g]).workers,
                    ).len() > 0 && requires_blocked(e, perspective@, unblocked(self@[g].workers)),
            },
    {
        let g = match self.live_group_index(perspective) {
            Some(g) => g,
            None => {
                return Err(
                    RuntimeError::PerspectiveForwardMissingGroup { perspective: perspective.dup() },
                );
            },
        };
        let group = &self.groups[g];
        assert(self@[g as int] == group@);
        let ghost ws = group.workers@;
        let ghost keep = |w: WorkerEntry| live(w.state) && !(w.state is Blocked);
        let mut pending: Vec<(WorkerId, WorkerState)> = Vec::new();
        let mut k: usize = 0;
        while k < group.workers.len()
            invariant
                ws == group.workers@,
                keep == (|w: WorkerEntry| live(w.state) && !(w.state is Blocked)),
                k <= ws.len(),
                pending@ == ws.take(k as int).filter(keep).map_values(
                    |w: WorkerEntry| (w.worker_id, w.state),
                ),
            decreases ws.len() - k,
        {
            proof {
                crate::runtime::group::lemma_filter_take_push(ws, keep, k as int);
            }
            let w = &group.workers[k];
            if w.state.is_live() && w.state != WorkerState::Blocked {
                let ghost before = pending@;
                pending.push((w.worker_id.clone(), w.state));
                assert(pending@ =~= ws.take(k + 1).filter(keep).map_values(
                    |w: WorkerEntry| (w.worker_id, w.state),
                ));
            } else {
                assert(pending@ =~= ws.take(k + 1).filter(keep).map_values(
                    |w: WorkerEntry| (w.worker_id, w.state),
                ));
            }
            k = k + 1;
        }
        assert(ws.take(ws.len() as int) =~= ws);
        assert(pending@ == unblocked(ws));
        if pending.len() > 0 {
            let workers = sort_by_text_key(pending);
            return Err(
                RuntimeError::PerspectiveForwardRequiresBlocked {
                    perspective: perspective.dup(),
                    workers,
                },
            );
        }
        Ok(g)
    }
}

/// Whether a target boundary (`tr`, `tw`) only widens the boundary of
/// group `g`: it keeps every path that the group reads or writes.
pub open spec fn widens(g: GroupModel, tr: Set<Seq<char>>, tw: Set<Seq<char>>) -> bool {
    g.write.subset_of(tw) && g.read.subset_of(tr)
}

/// A forward never narrows a boundary: a target that drops a file the
/// group reads, or one it writes, is not accepted; and after an accepted
/// forward the group reads and writes at least what it did before.
pub proof fn law_forward_never_narrows(
    gs: Seq<GroupModel>,
    g: int,
    base: CanonicalCommitHash,
    tr: Set<Seq<char>>,
    tw: Set<Seq<char>>,
)
    requires
        0 <= g < gs.len(),
    ensures
        (exists|f: Seq<char>| gs[g].read.contains(f) && !tr.contains(f)) ==> !widens(gs[g], tr, tw),
        (exists|f: Seq<char>| gs[g].write.contains(f) && !tw.contains(f)) ==> !widens(gs[g], tr, tw),
        widens(gs[g], tr, tw) ==> gs[g].read.subset_of(forwarded(gs, g, base, tr, tw)[g].read)
            && gs[g].write.subset_of(forwarded(gs, g, base, tr, tw)[g].write),
{
}

/// Check the target boundary of a forward of group `g` for `perspective`:
/// it must keep the group's boundary, and it must not overlap any live
/// group of another perspective (the first overlap is reported).
pub fn check_forward_boundary(
    perspective: &PerspectiveName,
    target: &CompiledPerspective,
    state: &StateFile,
    g: usize,
) -> (r: Result<(), RuntimeError>)
    requires
        target.wf(),
        state.wf(),
        g < state@.len(),
    ensures
        r is Ok ==> state@[g as int].read.subset_of(target.read_set()) && state@[g as int].write.subset_of(
            target.write_set(),
        ),
        !(state@[g as int].read.subset_of(target.read_set()) && state@[g as int].write.subset_of(
            target.write_set(),
        )) ==> (r matches Err(RuntimeError::BiddingGroupBoundaryMismatch { perspective: q }) && q@
            == perspective@),
        r is Ok <==> widens(state@[g as int], target.read_set(), target.write_set()) && forall|
            i: int,
        |
            0 <= i < state@.len() ==> !#[trigger] blocks(
                state@,
                perspective@,
                target.read_set(),
                target.write_set(),
                i,
            ),
        r matches Err(e) ==> if !widens(state@[g as int], target.read_set(), target.write_set()) {
            e matches RuntimeError::BiddingGroupBoundaryMismatch { perspective: q } && q@ == perspective@
        } else {
            exists|i: int|
                #[trigger] first_block(
                    state@,
                    perspective@,
                    target.read_set(),
                    target.write_set(),
                    i,
                ) && conflict_error(
                    e,
                    perspective@,
                    target.read_set(),
                    target.write_set(),
                    state@[i],
                )
        },
{
    let group = &state.groups[g];
    assert(state@[g as int] == group@);
    if !target.write().is_superset(&group.write_set) || !target.read().is_superset(&group.read_set) {
        return Err(RuntimeError::BiddingGroupBoundaryMismatch { perspective: perspective.dup() });
    }
    validate_create_boundary(perspective, target, state)
}

/// The detail view of the worker at `(g, k)`.
pub fn worker_detail(state: &StateFile, g: usize, k: usize) -> (d: WorkerDetail)
    requires
        g < state@.len(),
        k < state@[g as int].workers.len(),
    ensures
        d.worker_id == state@[g as int].workers[k as int].worker_id,
        d.perspective == state@[g as int].perspective,
        d.state == state@[g as int].workers[k as int].state,
        d.worktree_path == state@[g as int].workers[k as int].worktree_path,
        d.base_commit == state@[g as int].base_commit,
        d.submitted_head_commit == state@[g as int].workers[k as int].submitted_head_commit,
{
    let group = &state.groups[g];
    assert(state@[g as int] == group@);
    let w = group.workers[k].clone();
    WorkerDetail {
        worker_id: w.worker_id,
        perspective: group.perspective.dup(),
        state: w.state,
        worktree_path: w.worktree_path,
        base_commit: group.base_commit.clone(),
        submitted_head_commit: w.submitted_head_commit,
    }
}

/// The summaries of the live workers of one group, in order.
pub open spec fn group_summaries(g: GroupModel) -> Seq<WorkerSummary> {
    g.workers.filter(|w: WorkerEntry| live(w.state)).map_values(
        |w: WorkerEntry| WorkerSummary { worker_id: w.worker_id, perspective: g.perspective, state: w.state },
    )
}

/// The summaries of every live worker, group by group.
pub open spec fn all_summaries(gs: Seq<GroupModel>) -> Seq<WorkerSummary>
    decreases gs.len(),
{
    if gs.len() == 0 {
        Seq::empty()
    } else {
        all_summaries(gs.drop_last()) + group_summaries(gs.last())
    }
}

/// The live workers, ordered by worker id.
pub fn list_workers(state: &StateFile) -> (r: Vec<WorkerSummary>)
    ensures
        r@.to_multiset() == all_summaries(state@).to_multiset(),
        keys_sorted(r@),
{
    let ghost gs = state@;
    let mut out: Vec<WorkerSummary> = Vec::new();
    let mut g: usize = 0;
    while g < state.groups.len()
        invariant
            gs == state@,
            g <= state.groups.len(),
            out@ == all_summaries(gs.take(g as int)),
        decreases state.groups.len() - g,
    {
        let group = &state.groups[g];
        assert(gs[g as int] == group@);
        let ghost ws = group.workers@;
        let ghost base = out@;
        let ghost keep = |w: WorkerEntry| live(w.state);
        let ghost f = |w: WorkerEntry|
            WorkerSummary { worker_id: w.worker_id, perspective: group.perspective, state: w.state };
        let mut k: usize = 0;
        while k < group.workers.len()
            invariant
                ws == group.workers@,
                keep == (|w: WorkerEntry| live(w.state)),
                f == (|w: WorkerEntry|
                    WorkerSummary {
                        worker_id: w.worker_id,
                        perspective: group.perspective,
                        state: w.state,
                    }),
                k <= ws.len(),
                out@ == base + ws.take(k as int).filter(keep).map_values(f),
            decreases ws.len() - k,
        {
            proof {
                crate::runtime::group::lemma_filter_take_push(ws, keep, k as int);
            }
            let w = &group.workers[k];
            if w.state.is_live() {
                let s = WorkerSummary {
                    worker_id: w.worker_id.clone(),
                    perspective: group.perspective.dup(),
                    state: w.state,
                };
                out.push(s);
            }
            assert(out@ =~= base + ws.take(k + 1).filter(keep).map_values(f));
            k = k + 1;
        }
        proof {
            assert(ws.take(ws.len() as int) =~= ws);
            assert(gs.take(g + 1).drop_last() =~= gs.take(g as int));
            assert(group_summaries(gs[g as int]) =~= ws.filter(keep).map_values(f));
            assert(out@ =~= all_summaries(gs.take(g + 1)));
        }
        g = g + 1;
    }
    assert(gs.take(gs.len() as int) =~= gs);
    sort_by_text_key(out)
}


/// The ids of the live workers of `ws`, in order.
pub open spec fn live_ids(ws: Seq<WorkerEntry>) -> Seq<WorkerId> {
    ws.filter(|w: WorkerEntry| live(w.state)).map_values(|w: WorkerEntry| w.worker_id)
}

/// What a summary of an active perspective says: the perspective, its
/// live workers, and the sizes of its read and write sets.
pub open spec fn summary_facts(a: ActivePerspectiveSummary) -> (
    PerspectiveName,
    Seq<WorkerId>,
    nat,
    nat,
) {
    (a.perspective, a.worker_ids@, a.read_count as nat, a.write_count as nat)
}

/// What the summary of live group `g` says.
pub open spec fn group_facts(g: GroupModel) -> (PerspectiveName, Seq<WorkerId>, nat, nat) {
    (g.perspective, live_ids(g.workers), g.read.len(), g.write.len())
}

/// The summary of one live group.
fn active_summary(group: &BiddingGroupRecord) -> (a: ActivePerspectiveSummary)
    requires
        group.wf(),
    ensures
        summary_facts(a) == group_facts(group@),
{
    let ghost ws = group.workers@;
    let ghost keep = |w: WorkerEntry| live(w.state);
    let mut ids: Vec<WorkerId> = Vec::new();
    let mut k: usize = 0;
    while k < group.workers.len()
        invariant
            ws == group.workers@,
            keep == (|w: WorkerEntry| live(w.state)),
            k <= ws.len(),
            ids@ == ws.take(k as int).filter(keep).map_values(|w: WorkerEntry| w.worker_id),
        decreases ws.len() - k,
    {
        proof {
            crate::runtime::group::lemma_filter_take_push(ws, keep, k as int);
        }
        if group.workers[k].state.is_live() {
            ids.push(group.workers[k].worker_id.clone());
        }
        assert(ids@ =~= ws.take(k + 1).filter(keep).map_values(|w: WorkerEntry| w.worker_id));
        k = k + 1;
    }
    assert(ws.take(ws.len() as int) =~= ws);
    ActivePerspectiveSummary {
        perspective: group.perspective.dup(),
        worker_ids: ids,
        read_count: group.read_set.len(),
        write_count: group.write_set.len(),
    }
}

/// The orchestrator's view of all active work: one summary per live
/// group, ordered by perspective, and the live workers ordered by id.
pub fn status(state: &StateFile) -> (r: OrchestratorStatus)
    requires
        state.wf(),
    ensures
        r.active_perspectives@.map_values(|a: ActivePerspectiveSummary| summary_facts(a)).to_multiset()
            == live_only(state@).map_values(|g: GroupModel| group_facts(g)).to_multiset(),
        keys_sorted(r.active_perspectives@),
        r.workers@.to_multiset() == all_summaries(state@).to_multiset(),
        keys_sorted(r.workers@),
{
    let ghost gs = state@;
    let ghost keep = |g: GroupModel| group_live(g);
    let mut out: Vec<ActivePerspectiveSummary> = Vec::new();
    let mut g: usize = 0;
    while g < state.groups.len()
        invariant
            gs == state@,
            state.wf(),
            keep == (|g: GroupModel| group_live(g)),
            g <= state.groups.len(),
            out@.map_values(|a: ActivePerspectiveSummary| summary_facts(a)) == gs.take(
                g as int,
            ).filter(keep).map_values(|m: GroupModel| group_facts(m)),
        decreases state.groups.len() - g,
    {
        proof {
            crate::runtime::group::lemma_filter_take_push(gs, keep, g as int);
        }
        let group = &state.groups[g];
        assert(gs[g as int] == group@);
        assert(state.groups@[g as int].wf());
        let ghost before = out@;
        let ghost prev = gs.take(g as int).filter(keep);
        if group.has_live_workers() {
            let a = active_summary(group);
            out.push(a);
            assert(out@ =~= before.push(a));
            assert(keep(gs[g as int]));
            assert(gs.take(g + 1).filter(keep) == prev.push(gs[g as int]));
            assert(out@.map_values(|a: ActivePerspectiveSummary| summary_facts(a)) =~= before.map_values(
                |a: ActivePerspectiveSummary| summary_facts(a),
            ).push(summary_facts(a)));
            assert(prev.push(gs[g as int]).map_values(|m: GroupModel| group_facts(m)) =~= prev.map_values(
                |m: GroupModel| group_facts(m),
            ).push(group_facts(gs[g as int])));
        } else {
            assert(!keep(gs[g as int]));
            assert(gs.take(g + 1).filter(keep) == prev);
        }
        assert(out@.map_values(|a: ActivePerspectiveSummary| summary_facts(a)) =~= gs.take(
            g + 1,
        ).filter(keep).map_values(|m: GroupModel| group_facts(m)));
        g = g + 1;
    }
    assert(gs.take(gs.len() as int) =~= gs);
    assert(live_only(gs) == gs.filter(keep));
    let ghost unsorted = out@;
    let sorted = sort_by_text_key(out);
    proof {
        crate::perm::lemma_map_perm(
            sorted@,
            unsorted,
            |a: ActivePerspectiveSummary| summary_facts(a),
        );
    }
    OrchestratorStatus { active_perspectives: sorted, workers: list_workers(state) }
}

/// Whether `e` is a failed check with the message `m`.
pub open spec fn check_failed_with(e: RuntimeError, m: Seq<char>) -> bool {
    e matches RuntimeError::CheckFailed(s) && s@ == m
}

/// The refusal of a merge whose audit entry is already recorded.
pub fn audit_entry_exists(id: &str) -> (e: RuntimeError)
    ensures
        check_failed_with(e, "audit entry id already exists: "@ + id@),
{
    let mut m = String::from_str("audit entry id already exists: ");
    m.append(id);
    RuntimeError::CheckFailed(m)
}

/// Whether `e` reports that worker `w` submitted its base commit `h`.
pub open spec fn no_new_commit(e: RuntimeError, w: WorkerId, h: CanonicalCommitHash) -> bool {
    e matches RuntimeError::NoNewCommit { worker_id, head_commit } && worker_id == w && head_commit
        == h
}

/// Whether `e` reports that the worktree of `w` moved from `s` to `c`.
pub open spec fn head_mismatch(
    e: RuntimeError,
    w: WorkerId,
    s: CanonicalCommitHash,
    c: CanonicalCommitHash,
) -> bool {
    e matches RuntimeError::WorkerHeadMismatch {
        worker_id,
        submitted_head_commit,
        current_head_commit,
    } && worker_id == w && submitted_head_commit == s && current_head_commit == c
}

/// Whether a requested skip names a declared, skippable check.
pub open spec fn skip_ok(decls: Seq<(CheckName, CheckDecl)>, s: Seq<char>) -> bool {
    &&& ident_valid(s, false)
    &&& lookup(decls, s) matches Some(d)
    &&& d@.1 == CheckPolicy::Skippable
}

/// The message refusing a requested skip.
pub open spec fn skip_error_text(decls: Seq<(CheckName, CheckDecl)>, s: Seq<char>) -> Seq<char> {
    if !ident_valid(s, false) || lookup(decls, s) is None {
        "unknown check `"@ + s + "`"@
    } else {
        "check `"@ + s + "` is not skippable"@
    }
}

/// Validate that a skip request only targets declared checks marked
/// skippable; checks without a policy default to `always` and cannot be
/// skipped. Returns the accepted names, each once.
pub fn validate_skip_request(checks: &CompiledChecks, skip_checks: &Vec<String>) -> (r: Result<
    Vec<CheckName>,
    RuntimeError,
>)
    requires
        checks.wf(),
    ensures
        match r {
            Ok(v) => (forall|i: int|
                0 <= i < skip_checks@.len() ==> skip_ok(
                    checks.spec_declarations(),
                    #[trigger] skip_checks@[i]@,
                )) && labels_view(v@).to_set() == strings_view(skip_checks@).to_set()
                && labels_view(v@).no_duplicates(),
            Err(e) => exists|i: int|
                0 <= i < skip_checks@.len() && !skip_ok(
                    checks.spec_declarations(),
                    #[trigger] skip_checks@[i]@,
                ) && (forall|j: int|
                    0 <= j < i ==> skip_ok(checks.spec_declarations(), #[trigger] skip_checks@[j]@))
                    && check_failed_with(
                    e,
                    skip_error_text(checks.spec_declarations(), skip_checks@[i]@),
                ),
        },
{
    let ghost d = checks.spec_declarations();
    let ghost req = strings_view(skip_checks@);
    let mut accepted: Vec<CheckName> = Vec::new();
    let mut i: usize = 0;
    while i < skip_checks.len()
        invariant
            d == checks.spec_declarations(),
            req == strings_view(skip_checks@),
            checks.wf(),
            i <= skip_checks.len(),
            forall|j: int| 0 <= j < i ==> skip_ok(d, #[trigger] skip_checks@[j]@),
            labels_view(accepted@).to_set() == req.take(i as int).to_set(),
            labels_view(accepted@).no_duplicates(),
        decreases skip_checks.len() - i,
    {
        let requested = &skip_checks[i];
        let name = match CheckName::new(requested.as_str()) {
            Ok(n) => n,
            Err(_) => {
                let mut m = String::from_str("unknown check `");
                m.append(requested.as_str());
                m.append("`");
                return Err(RuntimeError::CheckFailed(m));
            },
        };
        let decl = match checks.get(&name) {
            Some(decl) => decl,
            None => {
                let mut m = String::from_str("unknown check `");
                m.append(requested.as_str());
                m.append("`");
                return Err(RuntimeError::CheckFailed(m));
            },
        };
        if decl.policy() != CheckPolicy::Skippable {
            let mut m = String::from_str("check `");
            m.append(requested.as_str());
            m.append("` is not skippable");
            return Err(RuntimeError::CheckFailed(m));
        }
        let ghost before = accepted@;
        let mut present = false;
        let mut q: usize = 0;
        while q < accepted.len()
            invariant
                q <= accepted.len(),
                !present ==> forall|t: int| 0 <= t < q ==> (#[trigger] accepted@[t])@ != name@,
                present ==> labels_view(accepted@).contains(name@),
            decreases accepted.len() - q,
        {
            if accepted[q].same(&name) {
                assert(labels_view(accepted@)[q as int] == name@);
                present = true;
            }
            q = q + 1;
        }
        proof {
            assert(req.take(i + 1) =~= req.take(i as int).push(name@));
            req.take(i as int).lemma_push_to_set_commute(name@);
        }
        if !present {
            accepted.push(name);
            proof {
                assert(labels_view(accepted@) =~= labels_view(before).push(name@));
                labels_view(before).lemma_push_to_set_commute(name@);
                assert(!labels_view(before).contains(name@));
            }
        } else {
            assert(labels_view(accepted@).to_set() =~= labels_view(accepted@).to_set().insert(name@));
        }
        i = i + 1;
    }
    assert(req.take(skip_checks.len() as int) =~= req);
    Ok(accepted)
}

/// The names of planned checks.
pub open spec fn planned_names(r: Seq<(String, String)>) -> Seq<Seq<char>> {
    r.map_values(|c: (String, String)| c.0@)
}

/// Each planned check carries the command declared for its name.
pub open spec fn planned_commands(r: Seq<(String, String)>, d: Seq<(CheckName, CheckDecl)>) -> bool {
    forall|i: int|
        0 <= i < r.len() ==> (lookup(d, (#[trigger] r[i]).0@) matches Some(decl) && r[i].1@
            == decl@.0)
}

/// The pipeline split into the checks to run, each with its command, and
/// the names of those to skip, both in pipeline order.
pub fn plan_checks(checks: &CompiledChecks, allowed: &Vec<CheckName>) -> (r: (
    Vec<(String, String)>,
    Vec<String>,
))
    requires
        checks.wf(),
    ensures
        planned_names(r.0@) == checks.spec_pipeline().filter(
            |n: Seq<char>| !labels_view(allowed@).contains(n),
        ),
        planned_commands(r.0@, checks.spec_declarations()),
        strings_view(r.1@) == checks.spec_pipeline().filter(
            |n: Seq<char>| labels_view(allowed@).contains(n),
        ),
{
    let pipeline = checks.pipeline();
    let ghost p = checks.spec_pipeline();
    let ghost d = checks.spec_declarations();
    let ghost al = labels_view(allowed@);
    let ghost skip = |n: Seq<char>| al.contains(n);
    let ghost run = |n: Seq<char>| !al.contains(n);
    let mut ran: Vec<(String, String)> = Vec::new();
    let mut skipped: Vec<String> = Vec::new();
    let mut i: usize = 0;
    while i < pipeline.len()
        invariant
            p == labels_view(pipeline@),
            d == checks.spec_declarations(),
            checks.wf(),
            p == checks.spec_pipeline(),
            al == labels_view(allowed@),
            skip == (|n: Seq<char>| al.contains(n)),
            run == (|n: Seq<char>| !al.contains(n)),
            i <= pipeline.len(),
            planned_names(ran@) == p.take(i as int).filter(run),
            planned_commands(ran@, d),
            strings_view(skipped@) == p.take(i as int).filter(skip),
        decreases pipeline.len() - i,
    {
        proof {
            crate::runtime::group::lemma_filter_take_push(p, run, i as int);
            crate::runtime::group::lemma_filter_take_push(p, skip, i as int);
        }
        let name = &pipeline[i];
        assert(p[i as int] == name@);
        let mut listed = false;
        let mut q: usize = 0;
        while q < allowed.len()
            invariant
                q <= allowed.len(),
                al == labels_view(allowed@),
                listed == al.take(q as int).contains(name@),
            decreases allowed.len() - q,
        {
            proof {
                assert(al.take(q + 1) =~= al.take(q as int).push(al[q as int]));
            }
            if allowed[q].same(name) {
                assert(al[q as int] == allowed@[q as int]@);
                assert(al.take(q + 1)[q as int] == name@);
                listed = true;
            } else {
                assert(al[q as int] == allowed@[q as int]@);
                assert(al.take(q + 1).contains(name@) == al.take(q as int).contains(name@)) by {
                    if al.take(q + 1).contains(name@) {
                        let t = choose|t: int| 0 <= t < q + 1 && #[trigger] al.take(q + 1)[t] == name@;
                        assert(t != q);
                        assert(al.take(q as int)[t] == name@);
                    }
                    if al.take(q as int).contains(name@) {
                        let t = choose|t: int| 0 <= t < q && #[trigger] al.take(q as int)[t] == name@;
                        assert(al.take(q + 1)[t] == name@);
                    }
                }
            }
            q = q + 1;
        }
        assert(al.take(allowed.len() as int) =~= al);
        let text = String::from_str(name.as_str());
        if listed {
            skipped.push(text);
        } else {
            proof {
                assert(!crate::rulebook::check::pipeline_bad_at(p, d, i as int));
            }
            match checks.get(name) {
                Some(decl) => {
                    let command = String::from_str(decl.command());
                    let ghost before = ran@;
                    ran.push((text, command));
                    proof {
                        assert(planned_names(ran@) =~= planned_names(before).push(name@));
                        assert forall|j: int| 0 <= j < ran@.len() implies (lookup(
                            d,
                            (#[trigger] ran@[j]).0@,
                        ) matches Some(c) && ran@[j].1@ == c@.0) by {
                            if j < before.len() {
                                assert(ran@[j] == before[j]);
                            }
                        }
                    }
                },
                None => {
                    assert(false);
                },
            }
        }
        assert(planned_names(ran@) =~= p.take(i + 1).filter(run));
        assert(strings_view(skipped@) =~= p.take(i + 1).filter(skip));
        i = i + 1;
    }
    assert(p.take(pipeline.len() as int) =~= p);
    (ran, skipped)
}

/// Check that a submission changed only files of the worker's write set;
/// the files outside it are reported.
pub fn check_write_set(
    worker_id: &WorkerId,
    perspective: &PerspectiveName,
    base_commit: &CanonicalCommitHash,
    head_commit: &CanonicalCommitHash,
    changed_files: &Vec<String>,
    write_set: &PathSet,
) -> (r: Result<(), RuntimeError>)
    ensures
        r is Ok <==> strings_view(changed_files@).to_set().subset_of(write_set.set()),
        r matches Err(e) ==> e matches RuntimeError::WriteSetViolation {
            worker_id: w,
            perspective: p,
            base_commit: b,
            head_commit: h,
            violations,
        } && w == *worker_id && p == *perspective && b == *base_commit && h == *head_commit
            && strings_view(violations@).to_set() == strings_view(changed_files@).to_set().difference(
            write_set.set(),
        ) && strings_view(violations@).no_duplicates(),
{
    let changed = PathSet::from_paths(changed_files);
    let outside = changed.difference(write_set);
    if outside.is_empty() {
        proof {
            assert forall|f: Seq<char>| strings_view(changed_files@).to_set().contains(f) implies write_set.set().contains(f) by {
                if !write_set.set().contains(f) {
                    assert(outside.set().contains(f));
                }
            }
        }
        return Ok(());
    }
    proof {
        assert(exists|f: Seq<char>| outside.set().contains(f)) by {
            if !exists|f: Seq<char>| outside.set().contains(f) {
                assert(outside.set() =~= Set::<Seq<char>>::empty());
            }
        }
        let f = choose|f: Seq<char>| outside.set().contains(f);
        assert(strings_view(changed_files@).to_set().contains(f) && !write_set.set().contains(f));
    }
    Err(
        RuntimeError::WriteSetViolation {
            worker_id: worker_id.clone(),
            perspective: perspective.dup(),
            base_commit: base_commit.clone(),
            head_commit: head_commit.clone(),
            violations: outside.to_vec(),
        },
    )
}

/// Check a submitted commit before integration: it must differ from the
/// base commit, and the worktree must still be at it.
pub fn check_submission(
    worker_id: &WorkerId,
    submitted: &CanonicalCommitHash,
    base_commit: &CanonicalCommitHash,
    current_head: &CanonicalCommitHash,
) -> (r: Result<(), RuntimeError>)
    ensures
        r is Ok <==> submitted@ != base_commit@ && current_head@ == submitted@,
        r matches Err(e) ==> (submitted@ == base_commit@ && no_new_commit(e, *worker_id, *submitted))
            || (submitted@ != base_commit@ && head_mismatch(
            e,
            *worker_id,
            *submitted,
            *current_head,
        )),
{
    if submitted.same(base_commit) {
        return Err(
            RuntimeError::NoNewCommit { worker_id: worker_id.clone(), head_commit: submitted.clone() },
        );
    }
    if !current_head.same(submitted) {
        return Err(
            RuntimeError::WorkerHeadMismatch {
                worker_id: worker_id.clone(),
                submitted_head_commit: submitted.clone(),
                current_head_commit: current_head.clone(),
            },
        );
    }
    Ok(())
}

/// Whether every requested skip names a skippable declared check.
pub open spec fn skips_ok(decls: Seq<(CheckName, CheckDecl)>, skips: Seq<String>) -> bool {
    forall|i: int| 0 <= i < skips.len() ==> skip_ok(decls, #[trigger] skips[i]@)
}

/// Whether `e` refuses the first requested skip that is not allowed.
pub open spec fn first_skip_refused(
    e: RuntimeError,
    decls: Seq<(CheckName, CheckDecl)>,
    skips: Seq<String>,
) -> bool {
    exists|i: int|
        0 <= i < skips.len() && !skip_ok(decls, #[trigger] skips[i]@) && (forall|j: int|
            0 <= j < i ==> skip_ok(decls, #[trigger] skips[j]@)) && check_failed_with(
            e,
            skip_error_text(decls, skips[i]@),
        )
}

/// Whether `e` reports the changed files of worker `w` outside the write
/// set of its group `grp`.
pub open spec fn write_set_violation(
    e: RuntimeError,
    w: WorkerId,
    grp: GroupModel,
    head: CanonicalCommitHash,
    changed: Set<Seq<char>>,
) -> bool {
    e matches RuntimeError::WriteSetViolation {
        worker_id,
        perspective,
        base_commit,
        head_commit,
        violations,
    } && worker_id == w && perspective == grp.perspective && base_commit == grp.base_commit
        && head_commit == head && strings_view(violations@).to_set() == changed.difference(grp.write)
        && strings_view(violations@).no_duplicates()
}

/// What a merge of the worker at `(g, k)` does once its submitted head is
/// resolved to `head_commit` and the worktree's `current_head`, the
/// checks of the base commit and the changed files are known. The
/// submission is judged first (a new commit, still checked out), then
/// the skip request, then the write set; only when all three pass are
/// the checks planned: those to run with their commands, and those
/// skipped, in pipeline order. The state is only read.
pub fn plan_merge(
    state: &StateFile,
    g: usize,
    k: usize,
    head_commit: &CanonicalCommitHash,
    current_head: &CanonicalCommitHash,
    checks: &CompiledChecks,
    skip_checks: &Vec<String>,
    changed_files: &Vec<String>,
) -> (r: Result<(Vec<(String, String)>, Vec<String>), RuntimeError>)
    requires
        g < state@.len(),
        k < state@[g as int].workers.len(),
        checks.wf(),
    ensures
        ({
            let grp = state@[g as int];
            let w = grp.workers[k as int].worker_id;
            let decls = checks.spec_declarations();
            let skips = strings_view(skip_checks@);
            let changed = strings_view(changed_files@).to_set();
            let submitted_ok = head_commit@ != grp.base_commit@ && current_head@ == head_commit@;
            &&& (r is Ok <==> submitted_ok && skips_ok(decls, skip_checks@) && changed.subset_of(
                grp.write,
            ))
            &&& (r matches Ok((run, skipped)) ==> planned_names(run@) == checks.spec_pipeline().filter(
                |n: Seq<char>| !skips.contains(n),
            ) && planned_commands(run@, decls) && strings_view(skipped@)
                == checks.spec_pipeline().filter(|n: Seq<char>| skips.contains(n)))
            &&& (r matches Err(e) ==> if !submitted_ok {
                (head_commit@ == grp.base_commit@ && no_new_commit(e, w, *head_commit)) || (
                head_commit@ != grp.base_commit@ && head_mismatch(e, w, *head_commit, *current_head))
            } else if !skips_ok(decls, skip_checks@) {
                first_skip_refused(e, decls, skip_checks@)
            } else {
                write_set_violation(e, w, grp, *head_commit, changed)
            })
        }),
{
    let grp = &state.groups[g];
    assert(state@[g as int] == grp@);
    let w = &grp.workers[k];
    match check_submission(&w.worker_id, head_commit, &grp.base_commit, current_head) {
        Ok(()) => {},
        Err(e) => {
            return Err(e);
        },
    }
    let allowed = match validate_skip_request(checks, skip_checks) {
        Ok(a) => a,
        Err(e) => {
            return Err(e);
        },
    };
    match check_write_set(
        &w.worker_id,
        &grp.perspective,
        &grp.base_commit,
        head_commit,
        changed_files,
        &grp.write_set,
    ) {
        Ok(()) => {},
        Err(e) => {
            return Err(e);
        },
    }
    let plan = plan_checks(checks, &allowed);
    proof {
        let skips = strings_view(skip_checks@);
        let al = labels_view(allowed@);
        assert(forall|n: Seq<char>| al.contains(n) <==> skips.contains(n)) by {
            assert forall|n: Seq<char>| al.contains(n) <==> skips.contains(n) by {
                assert(al.to_set().contains(n) == al.contains(n));
                assert(skips.to_set().contains(n) == skips.contains(n));
            }
        }
        assert((|n: Seq<char>| !al.contains(n)) =~= (|n: Seq<char>| !skips.contains(n)));
        assert((|n: Seq<char>| al.contains(n)) =~= (|n: Seq<char>| skips.contains(n)));
    }
    Ok(plan)
}

} // verus!
