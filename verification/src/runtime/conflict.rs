//! The bidding-group invariant: live groups are pairwise conflict-free.
//!
//! Two live groups never share a perspective, never write a common file,
//! and neither writes a file the other reads. Worker creation checks a
//! new group against every live one; discarding, merging and deleting
//! only retire workers; forwarding keeps it when the new boundary clears
//! the other live groups. The lemmas here show each of these transitions
//! keeps the invariant.

use vstd::prelude::*;

use super::boundary::{clears, lemma_clears_symmetric};
use super::commit::CanonicalCommitHash;
use super::group::{
    cleared, deleted, discarded, drop_worker, forwarded, gc, group_live, has_live, has_live_group,
    live_group_at, merge_entry, merged, other_than, retired, settle, without_worker, GroupModel,
    WorkerEntry,
};
use super::state::WorkerState;
use super::state::live;
use crate::label::Label;
use crate::perspective::name::PerspectiveName;

verus! {

/// Two groups are compatible: unless both are live, nothing is asked;
/// if both are, their perspectives differ and their boundaries clear.
pub open spec fn compatible(a: GroupModel, b: GroupModel) -> bool {
    group_live(a) && group_live(b) ==> a.perspective@ != b.perspective@ && clears(
        a.read,
        a.write,
        b.read,
        b.write,
    )
}

/// Live bidding groups are pairwise conflict-free.
pub open spec fn conflict_free(gs: Seq<GroupModel>) -> bool {
    forall|i: int, j: int| 0 <= i < j < gs.len() ==> compatible(#[trigger] gs[i], #[trigger] gs[j])
}

/// `b` replaces `a` without claiming more: same perspective, and if `b`
/// is live then `a` was live with the same boundary.
pub open spec fn weaker(b: GroupModel, a: GroupModel) -> bool {
    &&& b.perspective@ == a.perspective@
    &&& group_live(b) ==> group_live(a) && b.read == a.read && b.write == a.write
}

/// Index `i` is a live group that a candidate boundary (`cr`, `cw`) for
/// the perspective text `p` overlaps.
pub open spec fn blocks(
    gs: Seq<GroupModel>,
    p: Seq<char>,
    cr: Set<Seq<char>>,
    cw: Set<Seq<char>>,
    i: int,
) -> bool {
    &&& group_live(gs[i])
    &&& gs[i].perspective@ != p
    &&& !clears(cr, cw, gs[i].read, gs[i].write)
}

/// The state after a worker `e` joins the live group for `p`, or forms
/// a new group for `p` with the given base commit and boundary.
pub open spec fn with_worker(
    gs: Seq<GroupModel>,
    p: PerspectiveName,
    base: CanonicalCommitHash,
    read: Set<Seq<char>>,
    write: Set<Seq<char>>,
    e: WorkerEntry,
) -> Seq<GroupModel> {
    if has_live_group(gs, p@) {
        let i = choose|i: int| live_group_at(gs, p@, i);
        gs.update(i, GroupModel { workers: gs[i].workers.push(e), ..gs[i] })
    } else {
        gs.push(GroupModel { perspective: p, base_commit: base, read, write, workers: seq![e] })
    }
}

/// Compatibility does not depend on the order of the two groups.
pub proof fn lemma_compatible_symmetric(a: GroupModel, b: GroupModel)
    ensures
        compatible(a, b) == compatible(b, a),
{
    lemma_clears_symmetric(a.read, a.write, b.read, b.write);
}

/// Replacing one group by a weaker one keeps live groups conflict-free.
pub proof fn lemma_update_weaker(gs: Seq<GroupModel>, g: int, b: GroupModel)
    requires
        conflict_free(gs),
        0 <= g < gs.len(),
        weaker(b, gs[g]),
    ensures
        conflict_free(gs.update(g, b)),
{
    let ns = gs.update(g, b);
    assert forall|i: int, j: int| 0 <= i < j < ns.len() implies compatible(
        #[trigger] ns[i],
        #[trigger] ns[j],
    ) by {
        assert(compatible(gs[i], gs[j]));
    }
}

/// Every subsequence kept by a filter is conflict-free when the whole
/// sequence is.
pub proof fn lemma_filter_conflict_free(gs: Seq<GroupModel>, p: spec_fn(GroupModel) -> bool)
    requires
        conflict_free(gs),
    ensures
        conflict_free(gs.filter(p)),
    decreases gs.len(),
{
    reveal(Seq::filter);
    if gs.len() > 0 {
        let init = gs.drop_last();
        assert(conflict_free(init)) by {
            assert forall|i: int, j: int| 0 <= i < j < init.len() implies compatible(
                #[trigger] init[i],
                #[trigger] init[j],
            ) by {
                assert(init[i] == gs[i] && init[j] == gs[j]);
            }
        }
        lemma_filter_conflict_free(init, p);
        let f = init.filter(p);
        if p(gs.last()) {
            let nf = f.push(gs.last());
            assert forall|i: int, j: int| 0 <= i < j < nf.len() implies compatible(
                #[trigger] nf[i],
                #[trigger] nf[j],
            ) by {
                if j == f.len() {
                    assert(f.contains(f[i]));
                    init.lemma_filter_contains_rev(p, f[i]);
                    assert(init.contains(f[i]));
                    let k = choose|k: int| 0 <= k < init.len() && init[k] == f[i];
                    assert(gs[k] == init[k]);
                    assert(compatible(gs[k], gs[gs.len() - 1]));
                } else {
                    assert(nf[i] == f[i] && nf[j] == f[j]);
                }
            }
        }
    }
}

/// Dropping groups without workers keeps live groups conflict-free.
pub proof fn lemma_gc_conflict_free(gs: Seq<GroupModel>)
    requires
        conflict_free(gs),
    ensures
        conflict_free(gc(gs)),
{
    lemma_filter_conflict_free(gs, |g: GroupModel| g.workers.len() > 0);
}

/// A worker joining the live group for its perspective, or forming a new
/// group whose boundary no live group of another perspective blocks,
/// keeps live groups conflict-free.
pub proof fn lemma_with_worker_conflict_free(
    gs: Seq<GroupModel>,
    p: PerspectiveName,
    base: CanonicalCommitHash,
    read: Set<Seq<char>>,
    write: Set<Seq<char>>,
    e: WorkerEntry,
)
    requires
        conflict_free(gs),
        !has_live_group(gs, p@) ==> forall|i: int| 0 <= i < gs.len() ==> !blocks(gs, p@, read, write, i),
    ensures
        conflict_free(with_worker(gs, p, base, read, write, e)),
{
    if has_live_group(gs, p@) {
        lemma_first_live_group(gs, p@);
        let i = choose|i: int| live_group_at(gs, p@, i);
        let b = GroupModel { workers: gs[i].workers.push(e), ..gs[i] };
        assert(group_live(b)) by {
            assert(group_live(gs[i]));
            let k = choose|k: int| 0 <= k < gs[i].workers.len() && live((#[trigger] gs[i].workers[k]).state);
            assert(b.workers[k] == gs[i].workers[k]);
        }
        lemma_update_weaker(gs, i, b);
    } else {
        let n = GroupModel { perspective: p, base_commit: base, read, write, workers: seq![e] };
        let ns = gs.push(n);
        assert forall|i: int, j: int| 0 <= i < j < ns.len() implies compatible(
            #[trigger] ns[i],
            #[trigger] ns[j],
        ) by {
            if j == gs.len() {
                assert(ns[i] == gs[i]);
                if group_live(gs[i]) {
                    assert(gs[i].perspective@ != p@);
                    assert(!blocks(gs, p@, read, write, i));
                    lemma_clears_symmetric(read, write, gs[i].read, gs[i].write);
                }
            } else {
                assert(ns[i] == gs[i] && ns[j] == gs[j]);
            }
        }
    }
}

/// A group whose workers are a subset of another's live workers, with
/// the same perspective and, when live, the same boundary, is weaker.
proof fn lemma_weaker_by_workers(b: GroupModel, a: GroupModel)
    requires
        b.perspective == a.perspective,
        b.read == a.read,
        b.write == a.write,
        forall|k: int|
            0 <= k < b.workers.len() && live((#[trigger] b.workers[k]).state) ==> a.workers.contains(
                b.workers[k],
            ),
    ensures
        weaker(b, a),
{
    lemma_has_live_subset(a.workers, b.workers);
}

/// Discarding a worker keeps live groups conflict-free.
pub proof fn lemma_discard_conflict_free(gs: Seq<GroupModel>, g: int, k: int)
    requires
        conflict_free(gs),
        0 <= g < gs.len(),
        0 <= k < gs[g].workers.len(),
    ensures
        conflict_free(discarded(gs, g, k)),
{
    let a = gs[g];
    let b = GroupModel {
        workers: a.workers.update(k, retired(a.workers[k], WorkerState::Discarded)),
        ..a
    };
    assert forall|m: int| 0 <= m < b.workers.len() && live((#[trigger] b.workers[m]).state) implies a.workers.contains(
        b.workers[m],
    ) by {
        assert(m != k);
        assert(b.workers[m] == a.workers[m]);
    }
    lemma_weaker_by_workers(b, a);
    if !group_live(b) {
        assert(!group_live(cleared(b)));
    }
    lemma_update_weaker(gs, g, settle(b));
}

/// Merging a worker keeps live groups conflict-free: its group is left
/// with no live worker.
pub proof fn lemma_merge_conflict_free(gs: Seq<GroupModel>, g: int, id: Seq<char>)
    requires
        conflict_free(gs),
        0 <= g < gs.len(),
    ensures
        conflict_free(merged(gs, g, id)),
{
    let a = gs[g];
    let b = cleared(
        GroupModel { workers: a.workers.map_values(|e: WorkerEntry| merge_entry(e, id)), ..a },
    );
    assert(!group_live(b)) by {
        if group_live(b) {
            let m = choose|m: int| 0 <= m < b.workers.len() && live((#[trigger] b.workers[m]).state);
            assert(b.workers[m] == merge_entry(a.workers[m], id));
        }
    }
    lemma_update_weaker(gs, g, b);
}

/// Deleting a worker entry keeps live groups conflict-free.
pub proof fn lemma_delete_conflict_free(gs: Seq<GroupModel>, g: int, id: Seq<char>)
    requires
        conflict_free(gs),
        0 <= g < gs.len(),
    ensures
        conflict_free(deleted(gs, g, id)),
{
    let a = gs[g];
    let b = GroupModel { workers: without_worker(a.workers, id), ..a };
    assert forall|m: int| 0 <= m < b.workers.len() && live((#[trigger] b.workers[m]).state) implies a.workers.contains(
        b.workers[m],
    ) by {
        assert(b.workers.contains(b.workers[m]));
        a.workers.lemma_filter_contains_rev(other_than(id), b.workers[m]);
    }
    lemma_weaker_by_workers(b, a);
    lemma_update_weaker(gs, g, b);
    lemma_gc_conflict_free(gs.update(g, b));
}

/// Forwarding a group to a new base commit and boundary keeps live
/// groups conflict-free when the new boundary clears every other live
/// group of another perspective.
pub proof fn lemma_forward_conflict_free(
    gs: Seq<GroupModel>,
    g: int,
    base: CanonicalCommitHash,
    read: Set<Seq<char>>,
    write: Set<Seq<char>>,
)
    requires
        conflict_free(gs),
        0 <= g < gs.len(),
        forall|i: int| 0 <= i < gs.len() && i != g ==> !#[trigger] blocks(gs, gs[g].perspective@, read, write, i),
    ensures
        conflict_free(forwarded(gs, g, base, read, write)),
{
    let ns = forwarded(gs, g, base, read, write);
    assert forall|i: int, j: int| 0 <= i < j < ns.len() implies compatible(
        #[trigger] ns[i],
        #[trigger] ns[j],
    ) by {
        assert(compatible(gs[i], gs[j]));
        if i == g && group_live(ns[i]) && group_live(ns[j]) {
            assert(!blocks(gs, gs[g].perspective@, read, write, j));
        } else if j == g && group_live(ns[i]) && group_live(ns[j]) {
            assert(!blocks(gs, gs[g].perspective@, read, write, i));
            lemma_clears_symmetric(read, write, gs[i].read, gs[i].write);
        }
    }
}

/// Removing every entry of a worker id, then dropping groups left
/// without workers, keeps live groups conflict-free.
pub proof fn lemma_remove_worker_conflict_free(gs: Seq<GroupModel>, id: Seq<char>)
    requires
        conflict_free(gs),
    ensures
        conflict_free(gc(drop_worker(gs, id))),
{
    let ds = drop_worker(gs, id);
    assert forall|i: int, j: int| 0 <= i < j < ds.len() implies compatible(
        #[trigger] ds[i],
        #[trigger] ds[j],
    ) by {
        assert forall|q: int| 0 <= q < gs.len() implies weaker(#[trigger] ds[q], gs[q]) by {
            let a = gs[q];
            let b = ds[q];
            assert forall|m: int| 0 <= m < b.workers.len() && live((#[trigger] b.workers[m]).state) implies a.workers.contains(
                b.workers[m],
            ) by {
                assert(b.workers.contains(b.workers[m]));
                a.workers.lemma_filter_contains_rev(other_than(id), b.workers[m]);
            }
            lemma_weaker_by_workers(b, a);
        }
        assert(weaker(ds[i], gs[i]) && weaker(ds[j], gs[j]));
        assert(compatible(gs[i], gs[j]));
    }
    lemma_gc_conflict_free(ds);
}

/// When some group for `p` is live, there is a first one.
pub proof fn lemma_first_live_group(gs: Seq<GroupModel>, p: Seq<char>)
    requires
        has_live_group(gs, p),
    ensures
        exists|i: int| live_group_at(gs, p, i),
    decreases gs.len(),
{
    let init = gs.drop_last();
    if has_live_group(init, p) {
        lemma_first_live_group(init, p);
        let i = choose|i: int| live_group_at(init, p, i);
        assert forall|j: int| 0 <= j < i implies !(#[trigger] gs[j].perspective@ == p && group_live(gs[j])) by {
            assert(gs[j] == init[j]);
            assert(!(init[j].perspective@ == p && group_live(init[j])));
        }
        assert(gs[i] == init[i]);
        assert(live_group_at(gs, p, i));
    } else {
        let k = choose|k: int| 0 <= k < gs.len() && (#[trigger] gs[k]).perspective@ == p && group_live(gs[k]);
        if k < gs.len() - 1 {
            assert(init[k] == gs[k]);
        }
        let last = gs.len() - 1;
        assert forall|j: int| 0 <= j < last implies !(#[trigger] gs[j].perspective@ == p && group_live(gs[j])) by {
            assert(gs[j] == init[j]);
            if init[j].perspective@ == p && group_live(init[j]) {
                assert(has_live_group(init, p));
            }
        }
        assert(live_group_at(gs, p, last));
    }
}

/// Index `i` of the live groups for `p` is unique: it is the first.
pub proof fn lemma_live_group_unique(gs: Seq<GroupModel>, p: Seq<char>, i: int, j: int)
    requires
        live_group_at(gs, p, i),
        live_group_at(gs, p, j),
    ensures
        i == j,
{
    if i < j {
        assert(!(gs[i].perspective@ == p && group_live(gs[i])));
    } else if j < i {
        assert(!(gs[j].perspective@ == p && group_live(gs[j])));
    }
}

/// A sequence of workers with one more live worker is live.
pub proof fn lemma_has_live_subset(ws: Seq<WorkerEntry>, vs: Seq<WorkerEntry>)
    requires
        forall|k: int| 0 <= k < vs.len() && live((#[trigger] vs[k]).state) ==> ws.contains(vs[k]),
    ensures
        has_live(vs) ==> has_live(ws),
{
    if has_live(vs) {
        let k = choose|k: int| 0 <= k < vs.len() && live((#[trigger] vs[k]).state);
        assert(ws.contains(vs[k]));
        let m = choose|m: int| 0 <= m < ws.len() && ws[m] == vs[k];
        assert(live(ws[m].state));
    }
}

} // verus!
