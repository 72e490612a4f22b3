//! Compilation of perspective declarations into concrete file sets.
//!
//! Each perspective's read and write expressions are evaluated against
//! the compiled file sets; the result is then checked for the safety
//! property, so a [`CompiledPerspectives`] value always satisfies it.

use vstd::prelude::*;

use super::decl::{PerspectiveDecl, PerspectiveTable};
use super::error::{PerspectiveError, SafetyViolation};
use super::name::PerspectiveName;
use super::safety::{safety_violation_spec, SafetyValidator};
use crate::fileset::compile::{values_wf, Compiler};
use crate::fileset::expr::{eval, refs, refs_resolved};
use crate::fileset::name::Name;
use crate::fileset::validate::{collect_refs, names_view};
use crate::label::{has_key, key_index, keys_ascending, keys_unique, lookup, Label, LabelMap};
use crate::path_set::PathSet;
use crate::sort::text_lt;

verus! {

/// A single perspective compiled into concrete read and write sets.
#[derive(Debug, Clone)]
pub struct CompiledPerspective {
    read: PathSet,
    write: PathSet,
}

impl CompiledPerspective {
    /// The concrete read set.
    pub closed spec fn read_set(&self) -> Set<Seq<char>> {
        self.read.set()
    }

    /// The concrete write set.
    pub closed spec fn write_set(&self) -> Set<Seq<char>> {
        self.write.set()
    }

    /// Both sets are well formed.
    pub closed spec fn wf(&self) -> bool {
        self.read.wf() && self.write.wf()
    }

    /// A boundary from already materialized read and write sets.
    pub fn from_materialized_sets(read: PathSet, write: PathSet) -> (c: Self)
        requires
            read.wf(),
            write.wf(),
        ensures
            c.wf(),
            c.read_set() == read.set(),
            c.write_set() == write.set(),
    {
        CompiledPerspective { read, write }
    }

    /// The concrete read set.
    pub fn read(&self) -> (s: &PathSet)
        ensures
            s.set() == self.read_set(),
            self.wf() ==> s.wf(),
    {
        &self.read
    }

    /// The concrete write set.
    pub fn write(&self) -> (s: &PathSet)
        ensures
            s.set() == self.write_set(),
            self.wf() ==> s.wf(),
    {
        &self.write
    }

    /// A copy with the same sets.
    pub fn duplicate(&self) -> (c: Self)
        ensures
            c.read_set() == self.read_set(),
            c.write_set() == self.write_set(),
            self.wf() ==> c.wf(),
    {
        CompiledPerspective { read: self.read.clone(), write: self.write.clone() }
    }
}

/// Whether two sets share no element.
pub open spec fn disjoint(a: Set<Seq<char>>, b: Set<Seq<char>>) -> bool {
    a.intersect(b) == Set::<Seq<char>>::empty()
}

/// The safety property for two distinct perspectives: disjoint write
/// sets, and neither writes what the other reads.
pub open spec fn pair_safe(p: CompiledPerspective, q: CompiledPerspective) -> bool {
    &&& disjoint(p.write_set(), q.write_set())
    &&& disjoint(p.write_set(), q.read_set())
    &&& disjoint(q.write_set(), p.read_set())
}

/// The safety property for every pair of distinct entries.
pub open spec fn pairwise_safe(e: Seq<(PerspectiveName, CompiledPerspective)>) -> bool {
    forall|i: int, j: int| 0 <= i < j < e.len() ==> pair_safe(#[trigger] e[i].1, #[trigger] e[j].1)
}

/// Every entry's sets are well formed.
pub open spec fn all_wf(e: Seq<(PerspectiveName, CompiledPerspective)>) -> bool {
    forall|i: int| 0 <= i < e.len() ==> (#[trigger] e[i]).1.wf()
}

/// A set of compiled perspectives: each name once, each boundary well
/// formed. Boundaries of different perspectives may overlap; whether they
/// do is checked at runtime, against the live bidding groups.
#[derive(Debug)]
pub struct CompiledPerspectives {
    inner: LabelMap<PerspectiveName, CompiledPerspective>,
}

impl CompiledPerspectives {
    /// The compiled perspectives, in name order.
    pub closed spec fn spec_entries(&self) -> Seq<(PerspectiveName, CompiledPerspective)> {
        self.inner.spec_entries()
    }

    /// The invariant: names in increasing order, each once, and
    /// well-formed sets.
    pub closed spec fn wf(&self) -> bool {
        &&& self.inner.wf()
        &&& all_wf(self.inner.spec_entries())
    }

    /// Unfold the invariant.
    pub proof fn lemma_wf(&self)
        requires
            self.wf(),
        ensures
            keys_unique(self.spec_entries()),
            keys_ascending(self.spec_entries()),
            all_wf(self.spec_entries()),
    {
    }

    /// The compiled perspectives.
    pub fn perspectives(&self) -> (m: &LabelMap<PerspectiveName, CompiledPerspective>)
        ensures
            m.spec_entries() == self.spec_entries(),
            self.wf() ==> m.wf(),
    {
        &self.inner
    }

    /// Look up a compiled perspective by name.
    pub fn get(&self, name: &PerspectiveName) -> (r: Option<&CompiledPerspective>)
        requires
            self.wf(),
        ensures
            match r {
                Some(c) => lookup(self.spec_entries(), name@) == Some(*c),
                None => lookup(self.spec_entries(), name@) is None,
            },
    {
        self.inner.get(name)
    }

    /// The number of perspectives.
    pub fn len(&self) -> (n: usize)
        ensures
            n == self.spec_entries().len(),
    {
        self.inner.len()
    }

    /// Whether there are no perspectives.
    pub fn is_empty(&self) -> (b: bool)
        ensures
            b == (self.spec_entries().len() == 0),
    {
        self.inner.is_empty()
    }
}

/// Any two distinct perspectives of a safe compiled set (as
/// `PerspectiveTable::compile` returns) are conflict free: their write
/// sets are disjoint, and neither writes a file the other reads.
pub proof fn lemma_compiled_perspectives_conflict_free(c: CompiledPerspectives, a: int, b: int)
    requires
        c.wf(),
        pairwise_safe(c.spec_entries()),
        0 <= a < c.spec_entries().len(),
        0 <= b < c.spec_entries().len(),
        a != b,
    ensures
        disjoint(c.spec_entries()[a].1.write_set(), c.spec_entries()[b].1.write_set()),
        disjoint(c.spec_entries()[a].1.write_set(), c.spec_entries()[b].1.read_set()),
        c.spec_entries()[a].0@ != c.spec_entries()[b].0@,
{
    let e = c.spec_entries();
    if a < b {
        assert(pair_safe(e[a].1, e[b].1));
    } else {
        assert(pair_safe(e[b].1, e[a].1));
        assert(e[a].1.write_set().intersect(e[b].1.write_set()) =~= e[b].1.write_set().intersect(
            e[a].1.write_set(),
        ));
    }
}

/// The names a declaration references: its read expression's, then its
/// write expression's.
pub open spec fn decl_refs(d: PerspectiveDecl) -> Seq<Seq<char>> {
    refs(d.spec_read().spec_expr()) + refs(d.spec_write().spec_expr())
}

/// Whether reference `k` of declaration `i` names no compiled file set.
pub open spec fn unresolved_at(
    decls: Seq<(PerspectiveName, PerspectiveDecl)>,
    fs: Seq<(Name, PathSet)>,
    i: int,
    k: int,
) -> bool {
    &&& 0 <= i < decls.len()
    &&& 0 <= k < decl_refs(decls[i].1).len()
    &&& lookup(fs, decl_refs(decls[i].1)[k]) is None
}

/// Whether `(i, k)` is the first unresolved reference, declarations in
/// order and references left to right.
pub open spec fn first_unresolved(
    decls: Seq<(PerspectiveName, PerspectiveDecl)>,
    fs: Seq<(Name, PathSet)>,
    i: int,
    k: int,
) -> bool {
    &&& unresolved_at(decls, fs, i, k)
    &&& forall|i2: int, k2: int| 0 <= i2 < i ==> !unresolved_at(decls, fs, i2, k2)
    &&& forall|k2: int| 0 <= k2 < k ==> !unresolved_at(decls, fs, i, k2)
}

/// Whether `cs` holds, for each declaration in order, its name and the
/// sets its expressions denote over `fs`.
pub open spec fn evaluated(
    decls: Seq<(PerspectiveName, PerspectiveDecl)>,
    fs: Seq<(Name, PathSet)>,
    cs: Seq<(PerspectiveName, CompiledPerspective)>,
) -> bool {
    &&& cs.len() == decls.len()
    &&& all_wf(cs)
    &&& forall|i: int|
        0 <= i < cs.len() ==> {
            &&& (#[trigger] cs[i]).0@ == decls[i].0@
            &&& cs[i].1.read_set() == eval(decls[i].1.spec_read().spec_expr(), fs)
            &&& cs[i].1.write_set() == eval(decls[i].1.spec_write().spec_expr(), fs)
        }
}

proof fn lemma_resolved_parts(d: PerspectiveDecl, fs: Seq<(Name, PathSet)>)
    requires
        forall|k: int| 0 <= k < decl_refs(d).len() ==> lookup(fs, #[trigger] decl_refs(d)[k]) is Some,
    ensures
        refs_resolved(d.spec_read().spec_expr(), fs),
        refs_resolved(d.spec_write().spec_expr(), fs),
{
    let a = refs(d.spec_read().spec_expr());
    let b = refs(d.spec_write().spec_expr());
    assert forall|k: int| 0 <= k < a.len() implies lookup(fs, #[trigger] a[k]) is Some by {
        assert(decl_refs(d)[k] == a[k]);
    }
    assert forall|k: int| 0 <= k < b.len() implies lookup(fs, #[trigger] b[k]) is Some by {
        assert(decl_refs(d)[a.len() + k] == b[k]);
    }
}

/// What evaluating the declarations `ds` against the compiled file sets
/// `fs` gives: on success the evaluated perspectives, whether or not they
/// overlap; otherwise the first unresolved reference.
pub open spec fn perspective_evaluate_result(
    ds: Seq<(PerspectiveName, PerspectiveDecl)>,
    fs: Seq<(Name, PathSet)>,
    r: Result<CompiledPerspectives, PerspectiveError>,
) -> bool {
    match r {
        Ok(c) => c.wf() && evaluated(ds, fs, c.spec_entries()) && forall|i: int, k: int|
            !unresolved_at(ds, fs, i, k),
        Err(PerspectiveError::UndefinedFileSet { perspective, name }) => exists|i: int, k: int|
            #[trigger] first_unresolved(ds, fs, i, k) && perspective@ == ds[i].0@ && name@
                == decl_refs(ds[i].1)[k],
        _ => false,
    }
}

/// What compiling the declarations `ds` against the compiled file sets
/// `fs` gives: on success the evaluated perspectives, which are pairwise
/// safe; otherwise the first unresolved reference, or the safety
/// violation found among the evaluated perspectives.
pub open spec fn perspective_compile_result(
    ds: Seq<(PerspectiveName, PerspectiveDecl)>,
    fs: Seq<(Name, PathSet)>,
    r: Result<CompiledPerspectives, PerspectiveError>,
) -> bool {
    match r {
        Ok(c) => c.wf() && pairwise_safe(c.spec_entries()) && evaluated(ds, fs, c.spec_entries()),
        Err(PerspectiveError::UndefinedFileSet { perspective, name }) => exists|i: int, k: int|
            #[trigger] first_unresolved(ds, fs, i, k)
                && perspective@ == ds[i].0@ && name@ == decl_refs(
                ds[i].1,
            )[k],
        Err(PerspectiveError::Safety(v)) => (forall|i: int, k: int|
            !unresolved_at(ds, fs, i, k))
            && exists|cs: Seq<(PerspectiveName, CompiledPerspective)>|
            evaluated(ds, fs, cs)
                && !pairwise_safe(cs) && safety_violation_spec(cs, v),
        Err(PerspectiveError::Parse { .. }) => false,
    }
}

impl PerspectiveTable {
    /// Compile all declarations against compiled file sets, then check
    /// the safety property.
    ///
    /// The first reference to an undefined file set is reported; after
    /// that, the first unsafe pair (see [`SafetyValidator::validate`]).
    pub fn compile(&self, compiled_filesets: &LabelMap<Name, PathSet>) -> (r: Result<
        CompiledPerspectives,
        PerspectiveError,
    >)
        requires
            self.wf(),
            compiled_filesets.wf(),
            values_wf(compiled_filesets.spec_entries()),
        ensures
            perspective_compile_result(
                self.spec_declarations(),
                compiled_filesets.spec_entries(),
                r,
            ),
    {
        let compiled = match self.evaluate(compiled_filesets) {
            Ok(c) => c,
            Err(e) => {
                return Err(e);
            },
        };
        let ghost cs = compiled.spec_entries();
        match SafetyValidator::new(&compiled.inner).validate() {
            Ok(()) => Ok(compiled),
            Err(v) => {
                assert(evaluated(self.spec_declarations(), compiled_filesets.spec_entries(), cs));
                Err(PerspectiveError::Safety(v))
            },
        }
    }

    /// Evaluate every declaration's read and write expressions against
    /// compiled file sets, without comparing perspectives with each
    /// other. The first reference to an undefined file set is reported.
    pub fn evaluate(&self, compiled_filesets: &LabelMap<Name, PathSet>) -> (r: Result<
        CompiledPerspectives,
        PerspectiveError,
    >)
        requires
            self.wf(),
            compiled_filesets.wf(),
            values_wf(compiled_filesets.spec_entries()),
        ensures
            perspective_evaluate_result(
                self.spec_declarations(),
                compiled_filesets.spec_entries(),
                r,
            ),
    {
        let decls = self.declarations();
        let ghost ds = self.spec_declarations();
        let ghost fs = compiled_filesets.spec_entries();
        let n = decls.len();
        let mut compiled: LabelMap<PerspectiveName, CompiledPerspective> = LabelMap::new();
        let mut i: usize = 0;
        while i < n
            invariant
                n == ds.len(),
                decls.spec_entries() == ds,
                ds == self.spec_declarations(),
                decls.wf(),
                fs == compiled_filesets.spec_entries(),
                compiled_filesets.wf(),
                values_wf(fs),
                i <= n,
                compiled.wf(),
                evaluated(ds.take(i as int), fs, compiled.spec_entries()),
                forall|i2: int, k2: int| 0 <= i2 < i ==> !unresolved_at(ds, fs, i2, k2),
            decreases n - i,
        {
            let name = decls.key_at(i);
            let decl = decls.value_at(i);
            let mut rs = collect_refs(decl.read());
            let mut ws = collect_refs(decl.write());
            let ghost ra = rs@;
            let ghost wa = ws@;
            rs.append(&mut ws);
            proof {
                assert(rs@ == ra + wa);
                assert(names_view(rs@) =~= names_view(ra) + names_view(wa));
                assert(names_view(rs@) == decl_refs(ds[i as int].1));
            }
            let mut k: usize = 0;
            while k < rs.len()
                invariant
                    n == ds.len(),
                    i < n,
                    fs == compiled_filesets.spec_entries(),
                    compiled_filesets.wf(),
                    names_view(rs@) == decl_refs(ds[i as int].1),
                    decls.spec_entries() == ds,
                    ds == self.spec_declarations(),
                    *name == ds[i as int].0,
                    k <= rs.len(),
                    forall|i2: int, k2: int| 0 <= i2 < i ==> !unresolved_at(ds, fs, i2, k2),
                    forall|k2: int| 0 <= k2 < k ==> !unresolved_at(ds, fs, i as int, k2),
                decreases rs.len() - k,
            {
                if !compiled_filesets.contains_key(&rs[k]) {
                    let pn = name.dup();
                    let missing = rs[k].dup();
                    proof {
                        assert(names_view(rs@)[k as int] == rs@[k as int]@);
                        assert(first_unresolved(ds, fs, i as int, k as int));
                        assert(pn@ == ds[i as int].0@);
                        assert(missing@ == decl_refs(ds[i as int].1)[k as int]);
                    }
                    return Err(PerspectiveError::UndefinedFileSet { perspective: pn, name: missing });
                }
                proof {
                    assert(names_view(rs@)[k as int] == rs@[k as int]@);
                }
                k = k + 1;
            }
            proof {
                assert forall|k2: int| !unresolved_at(ds, fs, i as int, k2) by {}
                assert forall|k2: int| 0 <= k2 < decl_refs(ds[i as int].1).len() implies lookup(
                    fs,
                    #[trigger] decl_refs(ds[i as int].1)[k2],
                ) is Some by {
                    assert(!unresolved_at(ds, fs, i as int, k2));
                }
                lemma_resolved_parts(ds[i as int].1, fs);
            }
            let read = Compiler::evaluate(decl.read(), compiled_filesets);
            let write = Compiler::evaluate(decl.write(), compiled_filesets);
            let ghost before = compiled.spec_entries();
            proof {
                assert forall|q: int| 0 <= q < before.len() implies text_lt(
                    (#[trigger] before[q]).0@,
                    name@,
                ) by {
                    assert(before[q].0@ == ds.take(i as int)[q].0@);
                    assert(ds.take(i as int)[q] == ds[q]);
                }
                assert(!has_key(before, name@)) by {
                    if has_key(before, name@) {
                        let q = key_index(before, name@);
                        assert(before[q].0@ == ds.take(i as int)[q].0@);
                        assert(ds[q].0@ == ds[i as int].0@);
                    }
                }
            }
            compiled.insert(name.dup(), CompiledPerspective { read, write });
            proof {
                let after = compiled.spec_entries();
                assert(ds.take(i + 1) =~= ds.take(i as int).push(ds[i as int]));
                assert forall|q: int| 0 <= q < after.len() implies (#[trigger] after[q]).1.wf() by {
                    if q < i {
                        assert(after[q] == before[q]);
                    }
                }
                assert forall|q: int| 0 <= q < after.len() implies {
                    &&& (#[trigger] after[q]).0@ == ds.take(i + 1)[q].0@
                    &&& after[q].1.read_set() == eval(ds.take(i + 1)[q].1.spec_read().spec_expr(), fs)
                    &&& after[q].1.write_set() == eval(ds.take(i + 1)[q].1.spec_write().spec_expr(), fs)
                } by {
                    if q < i {
                        assert(after[q] == before[q]);
                        assert(ds.take(i + 1)[q] == ds.take(i as int)[q]);
                    }
                }
            }
            i = i + 1;
        }
        assert(ds.take(n as int) =~= ds);
        assert forall|i2: int, k2: int| !unresolved_at(ds, fs, i2, k2) by {
            if 0 <= i2 < n {
            }
        }
        Ok(CompiledPerspectives { inner: compiled })
    }
}

} // verus!
