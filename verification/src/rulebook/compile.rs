//! Aggregate compilation of a rulebook into runtime-ready structures.

use vstd::prelude::*;

use super::check::{check_compile_result, decls_ok, pipeline_ok, CompiledChecks};
use super::decl::Rulebook;
use super::error::RulebookError;
use crate::fileset::compile::{fileset_compile_result, values_wf};
use crate::fileset::name::Name;
use crate::label::{keys_ascending, Label, LabelMap};
use crate::sort::text_lt;
use crate::path_set::{strings_view, PathSet};
use crate::perspective::compile::{perspective_evaluate_result, CompiledPerspectives};
use crate::runtime::state::PerspectiveSummary;

verus! {

/// A fully compiled rulebook: compiled file sets, compiled perspectives
/// (whose boundaries may overlap: conflicts are checked at runtime,
/// against live bidding groups), and a validated check pipeline.
#[derive(Debug)]
pub struct CompiledRulebook {
    filesets: LabelMap<Name, PathSet>,
    perspectives: CompiledPerspectives,
    check: CompiledChecks,
}

impl CompiledRulebook {
    /// The compiled file sets.
    pub closed spec fn spec_filesets(&self) -> LabelMap<Name, PathSet> {
        self.filesets
    }

    /// The compiled perspectives.
    pub closed spec fn spec_perspectives(&self) -> CompiledPerspectives {
        self.perspectives
    }

    /// The validated checks.
    pub closed spec fn spec_check(&self) -> CompiledChecks {
        self.check
    }

    /// The compiled file sets keyed by file set name.
    pub fn filesets(&self) -> (m: &LabelMap<Name, PathSet>)
        ensures
            *m == self.spec_filesets(),
    {
        &self.filesets
    }

    /// The compiled perspectives.
    pub fn perspectives(&self) -> (p: &CompiledPerspectives)
        ensures
            *p == self.spec_perspectives(),
    {
        &self.perspectives
    }

    /// The validated check pipeline.
    pub fn check(&self) -> (c: &CompiledChecks)
        ensures
            *c == self.spec_check(),
    {
        &self.check
    }

    /// One summary per compiled perspective, in name order: its name and
    /// the sizes of its read and write sets.
    pub fn perspective_summaries(&self) -> (r: Vec<PerspectiveSummary>)
        requires
            self.spec_perspectives().wf(),
        ensures
            r@.len() == self.spec_perspectives().spec_entries().len(),
            forall|i: int, j: int|
                0 <= i < j < r@.len() ==> text_lt((#[trigger] r@[i]).name@, (#[trigger] r@[j]).name@),
            forall|i: int|
                0 <= i < r@.len() ==> {
                    let e = self.spec_perspectives().spec_entries()[i];
                    &&& (#[trigger] r@[i]).name == e.0
                    &&& r@[i].read_count == e.1.read_set().len()
                    &&& r@[i].write_count == e.1.write_set().len()
                },
    {
        proof {
            self.perspectives.lemma_wf();
        }
        let ghost es = self.perspectives.spec_entries();
        let m = self.perspectives.perspectives();
        let mut out: Vec<PerspectiveSummary> = Vec::new();
        let mut i: usize = 0;
        let n = m.len();
        while i < n
            invariant
                n == es.len(),
                es == self.perspectives.spec_entries(),
                es == m.spec_entries(),
                crate::perspective::compile::all_wf(es),
                keys_ascending(es),
                i <= es.len(),
                out@.len() == i,
                forall|q: int|
                    0 <= q < i ==> {
                        let e = es[q];
                        &&& (#[trigger] out@[q]).name == e.0
                        &&& out@[q].read_count == e.1.read_set().len()
                        &&& out@[q].write_count == e.1.write_set().len()
                    },
            decreases n - i,
        {
            let name = m.key_at(i);
            let p = m.value_at(i);
            assert(p.wf());
            let s = PerspectiveSummary {
                name: name.dup(),
                read_count: p.read().len(),
                write_count: p.write().len(),
            };
            out.push(s);
            i = i + 1;
        }
        out
    }
}

impl Rulebook {
    /// Compile this rulebook against a list of repository files: the
    /// check pipeline is validated first, then the file sets compiled,
    /// then the perspectives evaluated. Overlapping perspectives are
    /// accepted.
    pub fn compile(&self, files: &[String]) -> (r: Result<CompiledRulebook, RulebookError>)
        requires
            self.wf(),
        ensures
            match r {
                Ok(c) => check_compile_result(
                    self.spec_checks().spec_pipeline(),
                    self.spec_checks().spec_declarations(),
                    Ok(c.spec_check()),
                ) && fileset_compile_result(
                    self.spec_filesets().spec_definitions(),
                    strings_view(files@),
                    Ok(c.spec_filesets()),
                ) && perspective_evaluate_result(
                    self.spec_perspectives().spec_declarations(),
                    c.spec_filesets().spec_entries(),
                    Ok(c.spec_perspectives()),
                ),
                Err(RulebookError::Check(e)) => check_compile_result(
                    self.spec_checks().spec_pipeline(),
                    self.spec_checks().spec_declarations(),
                    Err(e),
                ),
                Err(RulebookError::FileSet(e)) => pipeline_ok(
                    self.spec_checks().spec_pipeline(),
                    self.spec_checks().spec_declarations(),
                ) && decls_ok(self.spec_checks().spec_pipeline(), self.spec_checks().spec_declarations())
                    && fileset_compile_result(
                    self.spec_filesets().spec_definitions(),
                    strings_view(files@),
                    Err(e),
                ),
                Err(RulebookError::Perspective(e)) => pipeline_ok(
                    self.spec_checks().spec_pipeline(),
                    self.spec_checks().spec_declarations(),
                ) && decls_ok(self.spec_checks().spec_pipeline(), self.spec_checks().spec_declarations())
                    && exists|m: LabelMap<Name, PathSet>|
                    fileset_compile_result(
                        self.spec_filesets().spec_definitions(),
                        strings_view(files@),
                        Ok(m),
                    ) && perspective_evaluate_result(
                        self.spec_perspectives().spec_declarations(),
                        m.spec_entries(),
                        Err(e),
                    ),
                Err(RulebookError::Decode { .. }) => false,
            },
    {
        let check = match self.checks().compile() {
            Ok(c) => c,
            Err(e) => {
                return Err(RulebookError::Check(e));
            },
        };
        let filesets = match self.filesets().compile(files) {
            Ok(m) => m,
            Err(e) => {
                return Err(RulebookError::FileSet(e));
            },
        };
        let perspectives = match self.perspectives().evaluate(&filesets) {
            Ok(p) => p,
            Err(e) => {
                return Err(RulebookError::Perspective(e));
            },
        };
        Ok(CompiledRulebook { filesets, perspectives, check })
    }
}

} // verus!
