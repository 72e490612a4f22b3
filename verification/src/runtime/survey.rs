//! Checking a set of perspectives for conflict-freedom before running
//! them side by side: against each other, and against the live bidding
//! groups.

use vstd::prelude::*;
use vstd::string::*;

use super::boundary::{boundary_conflict_info, overlap_spec, validation_relation_text};
use super::error::RuntimeError;
use super::group::{group_live, GroupModel, StateFile};
use super::state::{PerspectiveConflict, PerspectiveSummary, PerspectiveValidation};
use crate::label::{lookup, Label};
use crate::path_set::strings_view;
use crate::perspective::compile::{CompiledPerspective, CompiledPerspectives};
use crate::perspective::name::PerspectiveName;

verus! {

/// The model of one reported conflict: the two perspectives, the
/// relation text, and the overlapping files.
pub struct ConflictModel {
    pub perspective: Seq<char>,
    pub blocking: Seq<char>,
    pub relation: Seq<char>,
    pub files: Set<Seq<char>>,
}

/// The model of a reported conflict record.
pub open spec fn conflict_model(c: PerspectiveConflict) -> ConflictModel {
    ConflictModel {
        perspective: c.perspective@,
        blocking: c.blocking_perspective@,
        relation: c.relation@,
        files: strings_view(c.files@).to_set(),
    }
}

/// The conflict between boundary `a` of `an` and boundary `b` of `bn`,
/// as a sequence of zero or one records.
pub open spec fn cell(
    an: Seq<char>,
    ar: Set<Seq<char>>,
    aw: Set<Seq<char>>,
    bn: Seq<char>,
    br: Set<Seq<char>>,
    bw: Set<Seq<char>>,
) -> Seq<ConflictModel> {
    match overlap_spec(ar, aw, br, bw) {
        Some((rel, fs)) => seq![
            ConflictModel { perspective: an, blocking: bn, relation: validation_relation_text(rel), files: fs },
        ],
        None => Seq::empty(),
    }
}

/// The conflicts of named perspective `i` with perspectives `i+1 .. j`.
pub open spec fn pair_row(named: Seq<(PerspectiveName, CompiledPerspective)>, i: int, j: int) -> Seq<
    ConflictModel,
>
    decreases j - i,
{
    if j <= i + 1 || j > named.len() {
        Seq::empty()
    } else {
        pair_row(named, i, j - 1) + cell(
            named[i].0@,
            named[i].1.read_set(),
            named[i].1.write_set(),
            named[j - 1].0@,
            named[j - 1].1.read_set(),
            named[j - 1].1.write_set(),
        )
    }
}

/// The conflicts between named perspectives, pair by pair in order, for
/// the first `i` rows.
pub open spec fn pair_rows(named: Seq<(PerspectiveName, CompiledPerspective)>, i: int) -> Seq<
    ConflictModel,
>
    decreases i,
{
    if i <= 0 {
        Seq::empty()
    } else {
        pair_rows(named, i - 1) + pair_row(named, i - 1, named.len() as int)
    }
}

/// The conflicts of named perspective `k` with the first `g` groups that
/// are live and of another perspective.
pub open spec fn live_row(
    named: Seq<(PerspectiveName, CompiledPerspective)>,
    gs: Seq<GroupModel>,
    k: int,
    g: int,
) -> Seq<ConflictModel>
    decreases g,
{
    if g <= 0 || g > gs.len() {
        Seq::empty()
    } else {
        let grp = gs[g - 1];
        live_row(named, gs, k, g - 1) + if group_live(grp) && grp.perspective@ != named[k].0@ {
            cell(
                named[k].0@,
                named[k].1.read_set(),
                named[k].1.write_set(),
                grp.perspective@,
                grp.read,
                grp.write,
            )
        } else {
            Seq::empty()
        }
    }
}

/// The conflicts of the first `k` named perspectives with live groups.
pub open spec fn live_rows(
    named: Seq<(PerspectiveName, CompiledPerspective)>,
    gs: Seq<GroupModel>,
    k: int,
) -> Seq<ConflictModel>
    decreases k,
{
    if k <= 0 {
        Seq::empty()
    } else {
        live_rows(named, gs, k - 1) + live_row(named, gs, k - 1, gs.len() as int)
    }
}

/// Every conflict of named perspective `k` with the first `g` groups is
/// with a live group of another perspective.
proof fn lemma_live_row_other(
    named: Seq<(PerspectiveName, CompiledPerspective)>,
    gs: Seq<GroupModel>,
    k: int,
    g: int,
)
    ensures
        forall|i: int|
            0 <= i < live_row(named, gs, k, g).len() ==> {
                let c = #[trigger] live_row(named, gs, k, g)[i];
                &&& c.perspective == named[k].0@
                &&& c.blocking != c.perspective
                &&& exists|h: int|
                    0 <= h < gs.len() && group_live(#[trigger] gs[h]) && gs[h].perspective@
                        == c.blocking
            },
    decreases g,
{
    if g > 0 && g <= gs.len() {
        lemma_live_row_other(named, gs, k, g - 1);
        let prev = live_row(named, gs, k, g - 1);
        let grp = gs[g - 1];
        let extra = if group_live(grp) && grp.perspective@ != named[k].0@ {
            cell(
                named[k].0@,
                named[k].1.read_set(),
                named[k].1.write_set(),
                grp.perspective@,
                grp.read,
                grp.write,
            )
        } else {
            Seq::empty()
        };
        assert(live_row(named, gs, k, g) == prev + extra);
        assert forall|i: int| 0 <= i < live_row(named, gs, k, g).len() implies {
            let c = #[trigger] live_row(named, gs, k, g)[i];
            &&& c.perspective == named[k].0@
            &&& c.blocking != c.perspective
            &&& exists|h: int|
                0 <= h < gs.len() && group_live(#[trigger] gs[h]) && gs[h].perspective@ == c.blocking
        } by {
            if i < prev.len() {
                assert(live_row(named, gs, k, g)[i] == prev[i]);
            } else {
                assert(live_row(named, gs, k, g)[i] == extra[i - prev.len()]);
                assert(group_live(gs[g - 1]));
            }
        }
    }
}

/// A named perspective is never reported as conflicting with a live
/// bidding group of its own perspective: every conflict found against
/// the live groups names one of the validated perspectives and a live
/// group of a different perspective.
pub proof fn law_live_conflicts_are_with_other_perspectives(
    named: Seq<(PerspectiveName, CompiledPerspective)>,
    gs: Seq<GroupModel>,
    k: int,
)
    ensures
        forall|i: int|
            0 <= i < live_rows(named, gs, k).len() ==> {
                let c = #[trigger] live_rows(named, gs, k)[i];
                &&& c.blocking != c.perspective
                &&& exists|j: int| 0 <= j < k && #[trigger] named[j].0@ == c.perspective
                &&& exists|h: int|
                    0 <= h < gs.len() && group_live(#[trigger] gs[h]) && gs[h].perspective@
                        == c.blocking
            },
    decreases k,
{
    if k > 0 {
        law_live_conflicts_are_with_other_perspectives(named, gs, k - 1);
        lemma_live_row_other(named, gs, k - 1, gs.len() as int);
        let prev = live_rows(named, gs, k - 1);
        let row = live_row(named, gs, k - 1, gs.len() as int);
        assert(live_rows(named, gs, k) == prev + row);
        assert forall|i: int| 0 <= i < live_rows(named, gs, k).len() implies {
            let c = #[trigger] live_rows(named, gs, k)[i];
            &&& c.blocking != c.perspective
            &&& exists|j: int| 0 <= j < k && #[trigger] named[j].0@ == c.perspective
            &&& exists|h: int|
                0 <= h < gs.len() && group_live(#[trigger] gs[h]) && gs[h].perspective@ == c.blocking
        } by {
            if i < prev.len() {
                assert(live_rows(named, gs, k)[i] == prev[i]);
                let j = choose|j: int| 0 <= j < k - 1 && #[trigger] named[j].0@ == prev[i].perspective;
                assert(named[j].0@ == prev[i].perspective);
            } else {
                assert(live_rows(named, gs, k)[i] == row[i - prev.len()]);
                assert(row[i - prev.len()].perspective == named[k - 1].0@);
            }
        }
    }
}

/// Look up the named perspectives in a compiled rulebook; the first
/// unknown name is reported.
pub fn lookup_perspectives(compiled: &CompiledPerspectives, names: &Vec<PerspectiveName>) -> (r: Result<
    Vec<(PerspectiveName, CompiledPerspective)>,
    RuntimeError,
>)
    requires
        compiled.wf(),
    ensures
        match r {
            Ok(named) => named@.len() == names@.len() && forall|i: int|
                0 <= i < names@.len() ==> {
                    &&& (#[trigger] named@[i]).0 == names@[i]
                    &&& lookup(compiled.spec_entries(), names@[i]@) matches Some(c)
                    &&& named@[i].1.read_set() == c.read_set()
                    &&& named@[i].1.write_set() == c.write_set()
                    &&& named@[i].1.wf()
                },
            Err(RuntimeError::UnknownPerspective(s)) => exists|i: int|
                0 <= i < names@.len() && lookup(compiled.spec_entries(), (#[trigger] names@[i])@)
                    is None && s@ == names@[i]@ && forall|j: int|
                    0 <= j < i ==> lookup(compiled.spec_entries(), (#[trigger] names@[j])@) is Some,
            Err(_) => false,
        },
{
    proof {
        compiled.lemma_wf();
    }
    let mut named: Vec<(PerspectiveName, CompiledPerspective)> = Vec::new();
    let mut i: usize = 0;
    while i < names.len()
        invariant
            compiled.wf(),
            crate::perspective::compile::all_wf(compiled.spec_entries()),
            i <= names.len(),
            named@.len() == i,
            forall|q: int|
                0 <= q < i ==> {
                    &&& (#[trigger] named@[q]).0 == names@[q]
                    &&& lookup(compiled.spec_entries(), names@[q]@) matches Some(c)
                    &&& named@[q].1.read_set() == c.read_set()
                    &&& named@[q].1.write_set() == c.write_set()
                    &&& named@[q].1.wf()
                },
        decreases names.len() - i,
    {
        let name = &names[i];
        let p = match compiled.get(name) {
            Some(p) => p,
            None => {
                assert forall|j: int| 0 <= j < i implies lookup(
                    compiled.spec_entries(),
                    (#[trigger] names@[j])@,
                ) is Some by {
                    assert(named@[j].0 == names@[j]);
                }
                return Err(RuntimeError::UnknownPerspective(name.to_text()));
            },
        };
        proof {
            let e = compiled.spec_entries();
            let k = crate::label::key_index(e, name@);
            assert(crate::label::has_key(e, name@));
            assert(e[k].1.wf());
        }
        named.push((name.dup(), p.duplicate()));
        i = i + 1;
    }
    Ok(named)
}

/// The summary of each named perspective.
pub fn summarize(named: &Vec<(PerspectiveName, CompiledPerspective)>) -> (r: Vec<PerspectiveSummary>)
    requires
        forall|i: int| 0 <= i < named@.len() ==> (#[trigger] named@[i]).1.wf(),
    ensures
        r@.len() == named@.len(),
        forall|i: int|
            0 <= i < r@.len() ==> {
                &&& (#[trigger] r@[i]).name == named@[i].0
                &&& r@[i].read_count == named@[i].1.read_set().len()
                &&& r@[i].write_count == named@[i].1.write_set().len()
            },
{
    let mut r: Vec<PerspectiveSummary> = Vec::new();
    let mut i: usize = 0;
    while i < named.len()
        invariant
            forall|q: int| 0 <= q < named@.len() ==> (#[trigger] named@[q]).1.wf(),
            i <= named.len(),
            r@.len() == i,
            forall|q: int|
                0 <= q < i ==> {
                    &&& (#[trigger] r@[q]).name == named@[q].0
                    &&& r@[q].read_count == named@[q].1.read_set().len()
                    &&& r@[q].write_count == named@[q].1.write_set().len()
                },
        decreases named.len() - i,
    {
        let p = &named[i].1;
        assert(p.wf());
        r.push(
            PerspectiveSummary {
                name: named[i].0.dup(),
                read_count: p.read().len(),
                write_count: p.write().len(),
            },
        );
        i = i + 1;
    }
    r
}

/// The conflicts among named perspectives and, when `state` is given,
/// between each of them and the live groups of other perspectives:
/// pairs in order first, then each perspective against the groups in
/// order. The validation is `ok` when none is found.
pub fn perspective_conflicts(
    named: &Vec<(PerspectiveName, CompiledPerspective)>,
    state: Option<&StateFile>,
) -> (r: (bool, Vec<PerspectiveConflict>))
    requires
        forall|i: int| 0 <= i < named@.len() ==> (#[trigger] named@[i]).1.wf(),
        state matches Some(s) ==> s.wf(),
    ensures
        r.1@.map_values(|c: PerspectiveConflict| conflict_model(c)) == pair_rows(
            named@,
            named@.len() as int,
        ) + match state {
            Some(s) => live_rows(named@, s@, named@.len() as int),
            None => Seq::empty(),
        },
        r.0 == (r.1@.len() == 0),
        state matches Some(s) ==> forall|i: int|
            pair_rows(named@, named@.len() as int).len() <= i < r.1@.len()
                ==> (#[trigger] r.1@[i]).blocking_perspective@ != r.1@[i].perspective@,
{
    let ghost nv = named@;
    let mut out: Vec<PerspectiveConflict> = Vec::new();
    let n = named.len();
    let mut i: usize = 0;
    while i < n
        invariant
            nv == named@,
            n == nv.len(),
            forall|q: int| 0 <= q < nv.len() ==> (#[trigger] nv[q]).1.wf(),
            i <= n,
            out@.map_values(|c: PerspectiveConflict| conflict_model(c)) == pair_rows(nv, i as int),
        decreases n - i,
    {
        let ghost base = out@.map_values(|c: PerspectiveConflict| conflict_model(c));
        let mut j: usize = i + 1;
        assert(pair_row(nv, i as int, j as int) =~= Seq::<ConflictModel>::empty());
        while j < n
            invariant
                nv == named@,
                n == nv.len(),
                forall|q: int| 0 <= q < nv.len() ==> (#[trigger] nv[q]).1.wf(),
                i < n,
                i + 1 <= j <= n,
                out@.map_values(|c: PerspectiveConflict| conflict_model(c)) == base + pair_row(
                    nv,
                    i as int,
                    j as int,
                ),
            decreases n - j,
        {
            let ghost before = out@.map_values(|c: PerspectiveConflict| conflict_model(c));
            assert(nv[i as int].1.wf() && nv[j as int].1.wf());
            let ghost cl = cell(
                nv[i as int].0@,
                nv[i as int].1.read_set(),
                nv[i as int].1.write_set(),
                nv[j as int].0@,
                nv[j as int].1.read_set(),
                nv[j as int].1.write_set(),
            );
            match boundary_conflict_info(&named[i].0, &named[i].1, &named[j].0, &named[j].1) {
                Some(c) => {
                    let ghost cm = conflict_model(c);
                    out.push(c);
                    assert(cl =~= seq![cm]);
                    assert(out@.map_values(|c: PerspectiveConflict| conflict_model(c)) =~= before + cl);
                },
                None => {
                    assert(cl =~= Seq::<ConflictModel>::empty());
                    assert(out@.map_values(|c: PerspectiveConflict| conflict_model(c)) =~= before + cl);
                },
            }
            assert(pair_row(nv, i as int, j + 1) == pair_row(nv, i as int, j as int) + cl);
            assert(out@.map_values(|c: PerspectiveConflict| conflict_model(c)) =~= base + pair_row(
                nv,
                i as int,
                j + 1,
            ));
            j = j + 1;
        }
        assert(pair_rows(nv, i + 1) == pair_rows(nv, i as int) + pair_row(nv, i as int, n as int));
        i = i + 1;
    }
    match state {
        Some(s) => {
            let ghost gs = s@;
            let ghost pairs = pair_rows(nv, n as int);
            let mut k: usize = 0;
            while k < n
                invariant
                    nv == named@,
                    n == nv.len(),
                    gs == s@,
                    s.wf(),
                    forall|q: int| 0 <= q < nv.len() ==> (#[trigger] nv[q]).1.wf(),
                    k <= n,
                    out@.map_values(|c: PerspectiveConflict| conflict_model(c)) == pairs + live_rows(
                        nv,
                        gs,
                        k as int,
                    ),
                decreases n - k,
            {
                let ghost base = out@.map_values(|c: PerspectiveConflict| conflict_model(c));
                let mut g: usize = 0;
                while g < s.groups.len()
                    invariant
                        nv == named@,
                        n == nv.len(),
                        gs == s@,
                        s.wf(),
                        forall|q: int| 0 <= q < nv.len() ==> (#[trigger] nv[q]).1.wf(),
                        k < n,
                        g <= s.groups.len(),
                        out@.map_values(|c: PerspectiveConflict| conflict_model(c)) == base
                            + live_row(nv, gs, k as int, g as int),
                    decreases s.groups.len() - g,
                {
                    let grp = &s.groups[g];
                    assert(gs[g as int] == grp@);
                    assert(grp.wf());
                    let ghost before = out@.map_values(|c: PerspectiveConflict| conflict_model(c));
                    let ghost cl = if group_live(gs[g as int]) && gs[g as int].perspective@ != nv[k as int].0@ {
                        cell(
                            nv[k as int].0@,
                            nv[k as int].1.read_set(),
                            nv[k as int].1.write_set(),
                            gs[g as int].perspective@,
                            gs[g as int].read,
                            gs[g as int].write,
                        )
                    } else {
                        Seq::<ConflictModel>::empty()
                    };
                    if grp.has_live_workers() && !grp.perspective.same(&named[k].0) {
                        let active = CompiledPerspective::from_materialized_sets(
                            grp.read_set.clone(),
                            grp.write_set.clone(),
                        );
                        assert(nv[k as int].1.wf());
                        match boundary_conflict_info(&named[k].0, &named[k].1, &grp.perspective, &active) {
                            Some(c) => {
                                let ghost cm = conflict_model(c);
                                out.push(c);
                                assert(cl =~= seq![cm]);
                                assert(out@.map_values(|c: PerspectiveConflict| conflict_model(c)) =~= before + cl);
                            },
                            None => {
                                assert(cl =~= Seq::<ConflictModel>::empty());
                                assert(out@.map_values(|c: PerspectiveConflict| conflict_model(c)) =~= before + cl);
                            },
                        }
                    } else {
                        assert(out@.map_values(|c: PerspectiveConflict| conflict_model(c)) =~= before + cl);
                    }
                    assert(live_row(nv, gs, k as int, g + 1) == live_row(nv, gs, k as int, g as int) + cl);
                    assert(out@.map_values(|c: PerspectiveConflict| conflict_model(c)) =~= base
                        + live_row(nv, gs, k as int, g + 1));
                    g = g + 1;
                }
                assert(live_rows(nv, gs, k + 1) == live_rows(nv, gs, k as int) + live_row(
                    nv,
                    gs,
                    k as int,
                    gs.len() as int,
                ));
                assert(out@.map_values(|c: PerspectiveConflict| conflict_model(c)) =~= pairs
                    + live_rows(nv, gs, k + 1));
                k = k + 1;
            }
        },
        None => {
            assert(out@.map_values(|c: PerspectiveConflict| conflict_model(c)) =~= pair_rows(
                nv,
                n as int,
            ) + Seq::<ConflictModel>::empty());
        },
    }
    proof {
        match state {
            Some(st) => {
                let pl = pair_rows(nv, nv.len() as int);
                let lr = live_rows(nv, st@, nv.len() as int);
                law_live_conflicts_are_with_other_perspectives(nv, st@, nv.len() as int);
                assert forall|i: int| pl.len() <= i < out@.len() implies (
                #[trigger] out@[i]).blocking_perspective@ != out@[i].perspective@ by {
                    assert(conflict_model(out@[i]) == out@.map_values(
                        |c: PerspectiveConflict| conflict_model(c),
                    )[i]);
                    assert((pl + lr)[i] == lr[i - pl.len()]);
                }
            },
            None => {},
        }
    }
    let ok = out.len() == 0;
    (ok, out)
}

/// Validate a set of named perspectives for conflict-freedom, against
/// each other and, when `state` is given, against the live groups.
pub fn validate_named(
    named: &Vec<(PerspectiveName, CompiledPerspective)>,
    state: Option<&StateFile>,
) -> (v: PerspectiveValidation)
    requires
        forall|i: int| 0 <= i < named@.len() ==> (#[trigger] named@[i]).1.wf(),
        state matches Some(s) ==> s.wf(),
    ensures
        v.conflicts@.map_values(|c: PerspectiveConflict| conflict_model(c)) == pair_rows(
            named@,
            named@.len() as int,
        ) + match state {
            Some(s) => live_rows(named@, s@, named@.len() as int),
            None => Seq::empty(),
        },
        v.ok == (v.conflicts@.len() == 0),
        state matches Some(s) ==> forall|i: int|
            pair_rows(named@, named@.len() as int).len() <= i < v.conflicts@.len()
                ==> (#[trigger] v.conflicts@[i]).blocking_perspective@ != v.conflicts@[i].perspective@,
        v.perspectives@.len() == named@.len(),
        forall|i: int|
            0 <= i < named@.len() ==> {
                &&& (#[trigger] v.perspectives@[i]).name == named@[i].0
                &&& v.perspectives@[i].read_count == named@[i].1.read_set().len()
                &&& v.perspectives@[i].write_count == named@[i].1.write_set().len()
            },
{
    let perspectives = summarize(named);
    let (ok, conflicts) = perspective_conflicts(named, state);
    PerspectiveValidation { ok, perspectives, conflicts }
}

} // verus!
