//! Check pipeline declarations from the `[checks]` rulebook table.
//!
//! Checks are project-defined commands that run after the mandatory
//! file-set enforcement gate. The rulebook declares the ordered pipeline
//! and a named declaration for each check.

use vstd::prelude::*;
use vstd::string::*;

use super::error::{CheckNameError, CheckValidationError};
use crate::label::{entry_keys, has_key, inserted_in_order, keys_ascending, key_index, keys_unique, labels_view, lookup, Label, LabelMap};
use crate::text::{chars_of, ident_scan_spec, ident_valid, is_white_space, scan_ident, IdentScan};
use crate::sort::text_lt;

verus! {

/// A validated check identifier (e.g. `lint`, `build`, `test`).
///
/// Non-empty, starts with a lowercase ASCII letter, and contains only
/// ASCII letters and digits.
#[derive(Debug, PartialEq, Eq, Hash, PartialOrd, Ord)]
pub struct CheckName(String);

impl Clone for CheckName {
    /// A copy holding the same text.
    fn clone(&self) -> (r: Self)
        ensures
            r == *self,
    {
        CheckName(self.0.clone())
    }
}

impl View for CheckName {
    type V = Seq<char>;

    closed spec fn view(&self) -> Seq<char> {
        self.0@
    }
}

/// The result `CheckName::new` gives for the text `s`.
pub open spec fn check_name_result_spec(s: Seq<char>, r: Result<CheckName, CheckNameError>) -> bool {
    match r {
        Ok(n) => n@ == s && ident_valid(s, false),
        Err(CheckNameError::Empty) => ident_scan_spec(s, false, IdentScan::Empty),
        Err(CheckNameError::InvalidStart { name }) => name@ == s && ident_scan_spec(
            s,
            false,
            IdentScan::BadStart,
        ),
        Err(CheckNameError::InvalidChar { name, ch, pos }) => name@ == s && ident_scan_spec(
            s,
            false,
            IdentScan::BadChar { ch, pos },
        ),
    }
}

impl CheckName {
    /// Create a new `CheckName`, validating the identifier rules.
    pub fn new(s: &str) -> (r: Result<Self, CheckNameError>)
        ensures
            check_name_result_spec(s@, r),
    {
        match scan_ident(s, false) {
            IdentScan::Empty => Err(CheckNameError::Empty),
            IdentScan::BadStart => Err(CheckNameError::InvalidStart { name: String::from_str(s) }),
            IdentScan::BadChar { ch, pos } => Err(
                CheckNameError::InvalidChar { name: String::from_str(s), ch, pos },
            ),
            IdentScan::Valid => Ok(CheckName(String::from_str(s))),
        }
    }

    /// The text, as an owned string (what `Display` writes).
    pub fn to_text(&self) -> (r: String)
        ensures
            r@ == self@,
    {
        self.0.clone()
    }

    /// The identifier as a string slice.
    pub fn as_str(&self) -> (r: &str)
        ensures
            r@ == self@,
    {
        self.0.as_str()
    }
}

impl Label for CheckName {
    fn text(&self) -> (r: &str) {
        self.as_str()
    }

    fn same(&self, other: &Self) -> (r: bool) {
        self.0 == other.0
    }

    fn dup(&self) -> (r: Self)
        ensures
            r == *self,
    {
        CheckName(self.0.clone())
    }
}

/// The skip policy for a user-defined check.
#[derive(Debug, Clone, Copy, PartialEq, Eq, Structural)]
pub enum CheckPolicy {
    /// The check always runs during integration.
    Always,
    /// The check may be skipped when the orchestrator accepts worker
    /// evidence for that specific integration.
    Skippable,
}

impl CheckPolicy {
    /// The policy a rulebook names by `text`: `always` or `skippable`,
    /// and nothing for any other text.
    pub fn from_text(text: &str) -> (r: Option<CheckPolicy>)
        ensures
            r == (if text@ == "always"@ {
                Some(CheckPolicy::Always)
            } else if text@ == "skippable"@ {
                Some(CheckPolicy::Skippable)
            } else {
                None
            }),
    {
        if crate::text::text_eq(text, "always") {
            Some(CheckPolicy::Always)
        } else if crate::text::text_eq(text, "skippable") {
            Some(CheckPolicy::Skippable)
        } else {
            None
        }
    }
}

impl Default for CheckPolicy {
    fn default() -> (r: Self)
        ensures
            r == CheckPolicy::Always,
    {
        CheckPolicy::Always
    }
}

/// One declared check: an opaque shell command and its skip policy.
#[derive(Debug, Clone, PartialEq, Eq)]
pub struct CheckDecl {
    command: String,
    policy: CheckPolicy,
}

impl View for CheckDecl {
    type V = (Seq<char>, CheckPolicy);

    closed spec fn view(&self) -> (Seq<char>, CheckPolicy) {
        (self.command@, self.policy)
    }
}

impl CheckDecl {
    /// Create a new check declaration.
    pub fn new(command: String, policy: CheckPolicy) -> (d: Self)
        ensures
            d@ == (command@, policy),
    {
        CheckDecl { command, policy }
    }

    /// The raw command string.
    pub fn command(&self) -> (r: &str)
        ensures
            r@ == self@.0,
    {
        self.command.as_str()
    }

    /// The check policy.
    pub fn policy(&self) -> (r: CheckPolicy)
        ensures
            r == self@.1,
    {
        self.policy
    }

    /// A copy with the same command and policy.
    pub fn duplicate(&self) -> (r: Self)
        ensures
            r == *self,
    {
        CheckDecl { command: self.command.clone(), policy: self.policy }
    }
}

/// Whether `s` is empty once surrounding whitespace is trimmed, i.e.
/// every character is whitespace.
pub open spec fn is_blank(s: Seq<char>) -> bool {
    forall|i: int| 0 <= i < s.len() ==> is_white_space(#[trigger] s[i])
}

/// Whether `s` is empty after trimming whitespace.
pub fn blank(s: &str) -> (b: bool)
    ensures
        b == is_blank(s@),
{
    let cs = chars_of(s);
    let mut i: usize = 0;
    while i < cs.len()
        invariant
            i <= cs.len(),
            cs@ == s@,
            forall|j: int| 0 <= j < i ==> is_white_space(#[trigger] s@[j]),
        decreases cs.len() - i,
    {
        if !crate::text::white_space(cs[i]) {
            assert(!is_white_space(s@[i as int]));
            return false;
        }
        i = i + 1;
    }
    true
}

/// Whether pipeline entry `i` repeats an earlier entry.
pub open spec fn dup_at(p: Seq<Seq<char>>, i: int) -> bool {
    p.take(i).contains(p[i])
}

/// Whether pipeline entry `i` is rejected: a repeat, or undeclared.
pub open spec fn pipeline_bad_at(p: Seq<Seq<char>>, d: Seq<(CheckName, CheckDecl)>, i: int) -> bool {
    dup_at(p, i) || !has_key(d, p[i])
}

/// Whether declaration `j` is rejected: a blank command, or absent from
/// the pipeline.
pub open spec fn decl_bad_at(p: Seq<Seq<char>>, d: Seq<(CheckName, CheckDecl)>, j: int) -> bool {
    is_blank(d[j].1@.0) || !p.contains(d[j].0@)
}

/// Every pipeline entry is declared and appears once.
pub open spec fn pipeline_ok(p: Seq<Seq<char>>, d: Seq<(CheckName, CheckDecl)>) -> bool {
    forall|i: int| 0 <= i < p.len() ==> !#[trigger] pipeline_bad_at(p, d, i)
}

/// Every declaration has a non-blank command and appears in the pipeline.
pub open spec fn decls_ok(p: Seq<Seq<char>>, d: Seq<(CheckName, CheckDecl)>) -> bool {
    forall|j: int| 0 <= j < d.len() ==> !#[trigger] decl_bad_at(p, d, j)
}

/// Entry `i` is the first rejected pipeline entry.
pub open spec fn first_pipeline_bad(p: Seq<Seq<char>>, d: Seq<(CheckName, CheckDecl)>, i: int) -> bool {
    &&& 0 <= i < p.len()
    &&& pipeline_bad_at(p, d, i)
    &&& forall|i2: int| 0 <= i2 < i ==> !#[trigger] pipeline_bad_at(p, d, i2)
}

/// Declaration `j` is the first rejected declaration.
pub open spec fn first_decl_bad(p: Seq<Seq<char>>, d: Seq<(CheckName, CheckDecl)>, j: int) -> bool {
    &&& 0 <= j < d.len()
    &&& decl_bad_at(p, d, j)
    &&& forall|j2: int| 0 <= j2 < j ==> !#[trigger] decl_bad_at(p, d, j2)
}

/// What validating the pipeline `p` against the declarations `d` gives:
/// success exactly when every entry and declaration passes, returning
/// them unchanged; otherwise the first rejected pipeline entry, or else
/// the first rejected declaration.
pub open spec fn check_compile_result(
    p: Seq<Seq<char>>,
    d: Seq<(CheckName, CheckDecl)>,
    r: Result<CompiledChecks, CheckValidationError>,
) -> bool {
    (r is Ok <==> pipeline_ok(p, d) && decls_ok(
        p,
        d,
    ))
    && match r {
        Ok(c) => c.wf() && c.spec_pipeline() == p && c.spec_declarations()
            == d,
        Err(CheckValidationError::DuplicatePipelineEntry { name }) => exists|i: int|
            #[trigger] first_pipeline_bad(p, d, i)
                && dup_at(p, i) && name@ == p[i],
        Err(CheckValidationError::UndefinedPipelineEntry { name }) => exists|i: int|
            #[trigger] first_pipeline_bad(p, d, i)
                && !dup_at(p, i) && name@ == p[i],
        Err(CheckValidationError::EmptyCommand { name }) => pipeline_ok(
            p,
            d,
        ) && exists|j: int|
            #[trigger] first_decl_bad(p, d, j)
                && is_blank(d[j].1@.0) && name@
                == d[j].0@,
        Err(CheckValidationError::UnusedDeclaredCheck { name }) => pipeline_ok(
            p,
            d,
        ) && exists|j: int|
            #[trigger] first_decl_bad(p, d, j)
                && !is_blank(d[j].1@.0) && name@
                == d[j].0@,
    }
}

/// The complete `[checks]` table: an ordered pipeline plus a named
/// declaration for each check, in name order.
#[derive(Debug)]
pub struct CheckTable {
    pipeline: Vec<CheckName>,
    declarations: LabelMap<CheckName, CheckDecl>,
}

/// The checks of one pipeline position onward: whether `k` is among the
/// first `upto` names of `names`.
fn listed_before(names: &Vec<CheckName>, upto: usize, k: &CheckName) -> (b: bool)
    requires
        upto <= names.len(),
    ensures
        b == labels_view(names@).take(upto as int).contains(k@),
{
    let ghost v = labels_view(names@).take(upto as int);
    let mut i: usize = 0;
    while i < upto
        invariant
            i <= upto <= names.len(),
            v == labels_view(names@).take(upto as int),
            forall|j: int| 0 <= j < i ==> v[j] != k@,
        decreases upto - i,
    {
        if names[i].same(k) {
            assert(v[i as int] == k@);
            return true;
        }
        i = i + 1;
    }
    false
}

impl CheckTable {
    /// The pipeline, as name texts in order.
    pub closed spec fn spec_pipeline(&self) -> Seq<Seq<char>> {
        labels_view(self.pipeline@)
    }

    /// The declarations, in name order.
    pub closed spec fn spec_declarations(&self) -> Seq<(CheckName, CheckDecl)> {
        self.declarations.spec_entries()
    }

    /// Well-formedness: declaration names are unique.
    pub closed spec fn wf(&self) -> bool {
        self.declarations.wf()
    }

    /// A table with the given pipeline and no declarations.
    pub fn new(pipeline: Vec<CheckName>) -> (t: Self)
        ensures
            t.wf(),
            t.spec_pipeline() == labels_view(pipeline@),
            t.spec_declarations() == Seq::<(CheckName, CheckDecl)>::empty(),
    {
        CheckTable { pipeline, declarations: LabelMap::new() }
    }

    /// Add or replace the declaration for `name`.
    pub fn insert(&mut self, name: CheckName, decl: CheckDecl)
        requires
            old(self).wf(),
        ensures
            final(self).wf(),
            final(self).spec_pipeline() == old(self).spec_pipeline(),
            has_key(old(self).spec_declarations(), name@)
                ==> final(self).spec_declarations() == old(self).spec_declarations().update(
                key_index(old(self).spec_declarations(), name@),
                (name, decl),
            ),
            !has_key(old(self).spec_declarations(), name@) ==> inserted_in_order(
                old(self).spec_declarations(),
                (name, decl),
                final(self).spec_declarations(),
            ),
    {
        self.declarations.insert(name, decl);
    }

    /// The ordered check pipeline as declared in the rulebook.
    pub fn pipeline(&self) -> (p: &[CheckName])
        ensures
            labels_view(p@) == self.spec_pipeline(),
    {
        self.pipeline.as_slice()
    }

    /// The declared checks keyed by name.
    pub fn declarations(&self) -> (d: &LabelMap<CheckName, CheckDecl>)
        ensures
            d.spec_entries() == self.spec_declarations(),
            self.wf() ==> d.wf(),
    {
        &self.declarations
    }

    /// Compile and validate the check pipeline.
    ///
    /// Pipeline entries are examined in order: the first one that repeats
    /// an earlier entry or names an undeclared check is reported. Then
    /// declarations are examined in name order: the first with a blank
    /// command, or absent from the pipeline, is reported. Otherwise the
    /// pipeline and declarations are returned unchanged.
    pub fn compile(&self) -> (r: Result<CompiledChecks, CheckValidationError>)
        requires
            self.wf(),
        ensures
            check_compile_result(self.spec_pipeline(), self.spec_declarations(), r),
    {
        let ghost p = self.spec_pipeline();
        let ghost d = self.spec_declarations();
        let mut i: usize = 0;
        while i < self.pipeline.len()
            invariant
                p == self.spec_pipeline(),
                d == self.spec_declarations(),
                p == labels_view(self.pipeline@),
                i <= self.pipeline.len(),
                forall|i2: int| 0 <= i2 < i ==> !#[trigger] pipeline_bad_at(p, d, i2),
            decreases self.pipeline.len() - i,
        {
            let name = &self.pipeline[i];
            assert(p[i as int] == name@);
            if listed_before(&self.pipeline, i, name) {
                assert(first_pipeline_bad(p, d, i as int));
                return Err(CheckValidationError::DuplicatePipelineEntry { name: name.dup() });
            }
            if !self.declarations.contains_key(name) {
                assert(first_pipeline_bad(p, d, i as int));
                return Err(CheckValidationError::UndefinedPipelineEntry { name: name.dup() });
            }
            i = i + 1;
        }
        let n = self.declarations.len();
        let mut j: usize = 0;
        while j < n
            invariant
                p == self.spec_pipeline(),
                d == self.spec_declarations(),
                p == labels_view(self.pipeline@),
                n == d.len(),
                pipeline_ok(p, d),
                j <= n,
                forall|j2: int| 0 <= j2 < j ==> !#[trigger] decl_bad_at(p, d, j2),
            decreases n - j,
        {
            let name = self.declarations.key_at(j);
            let decl = self.declarations.value_at(j);
            if blank(decl.command()) {
                assert(first_decl_bad(p, d, j as int));
                return Err(CheckValidationError::EmptyCommand { name: name.dup() });
            }
            if !listed_before(&self.pipeline, self.pipeline.len(), name) {
                assert(p.take(p.len() as int) =~= p);
                assert(first_decl_bad(p, d, j as int));
                return Err(CheckValidationError::UnusedDeclaredCheck { name: name.dup() });
            }
            assert(p.take(p.len() as int) =~= p);
            j = j + 1;
        }
        let pipeline = self.pipeline.clone();
        assert(pipeline@ =~= self.pipeline@) by {
            assert forall|q: int| 0 <= q < pipeline.len() implies pipeline@[q] == self.pipeline@[q] by {
                assert(cloned::<CheckName>(self.pipeline@[q], pipeline@[q]));
            }
        }
        let declarations = copy_declarations(&self.declarations);
        Ok(CompiledChecks { pipeline, declarations })
    }
}

impl Default for CheckTable {
    fn default() -> (t: Self)
        ensures
            t.wf(),
            t.spec_pipeline() == Seq::<Seq<char>>::empty(),
            t.spec_declarations() == Seq::<(CheckName, CheckDecl)>::empty(),
    {
        let t = CheckTable::new(Vec::new());
        assert(t.spec_pipeline() =~= Seq::<Seq<char>>::empty());
        t
    }
}

/// An entry-for-entry copy of a declarations map.
fn copy_declarations(src: &LabelMap<CheckName, CheckDecl>) -> (m: LabelMap<CheckName, CheckDecl>)
    requires
        src.wf(),
    ensures
        m.wf(),
        m.spec_entries() == src.spec_entries(),
{
    let mut m: LabelMap<CheckName, CheckDecl> = LabelMap::new();
    let n = src.len();
    let mut j: usize = 0;
    while j < n
        invariant
            n == src.spec_entries().len(),
            src.wf(),
            j <= n,
            m.wf(),
            m.spec_entries() == src.spec_entries().take(j as int),
        decreases n - j,
    {
        let k = src.key_at(j).dup();
        let v = src.value_at(j).duplicate();
        proof {
            let e = src.spec_entries();
            assert forall|q: int| 0 <= q < m.spec_entries().len() implies text_lt(
                (#[trigger] m.spec_entries()[q]).0@,
                k@,
            ) by {
                assert(m.spec_entries()[q] == e[q]);
            }
            assert(!has_key(m.spec_entries(), k@)) by {
                if has_key(m.spec_entries(), k@) {
                    let q = key_index(m.spec_entries(), k@);
                    assert(m.spec_entries()[q] == e[q]);
                    assert(e[q].0@ == e[j as int].0@);
                }
            }
        }
        m.insert(k, v);
        proof {
            let e = src.spec_entries();
            assert(src.spec_entries().take(j + 1) =~= src.spec_entries().take(j as int).push(
                (k, v),
            )) by {
                assert(e[j as int].1 == v);
            }
        }
        j = j + 1;
    }
    assert(src.spec_entries().take(n as int) =~= src.spec_entries());
    m
}

/// A validated check pipeline.
///
/// Every declared check appears exactly once in the pipeline, every
/// pipeline entry is declared, and every command is non-blank.
#[derive(Debug)]
pub struct CompiledChecks {
    pipeline: Vec<CheckName>,
    declarations: LabelMap<CheckName, CheckDecl>,
}

impl CompiledChecks {
    /// The pipeline, as name texts in order.
    pub closed spec fn spec_pipeline(&self) -> Seq<Seq<char>> {
        labels_view(self.pipeline@)
    }

    /// The declarations, in name order.
    pub closed spec fn spec_declarations(&self) -> Seq<(CheckName, CheckDecl)> {
        self.declarations.spec_entries()
    }

    /// The pipeline invariant.
    pub open spec fn wf(&self) -> bool {
        &&& keys_unique(self.spec_declarations())
        &&& keys_ascending(self.spec_declarations())
        &&& pipeline_ok(self.spec_pipeline(), self.spec_declarations())
        &&& decls_ok(self.spec_pipeline(), self.spec_declarations())
    }

    /// The ordered pipeline.
    pub fn pipeline(&self) -> (p: &[CheckName])
        ensures
            labels_view(p@) == self.spec_pipeline(),
    {
        self.pipeline.as_slice()
    }

    /// The validated declarations.
    pub fn declarations(&self) -> (d: &LabelMap<CheckName, CheckDecl>)
        ensures
            d.spec_entries() == self.spec_declarations(),
    {
        &self.declarations
    }

    /// Look up one compiled check by name.
    pub fn get(&self, name: &CheckName) -> (r: Option<&CheckDecl>)
        requires
            self.wf(),
        ensures
            match r {
                Some(d) => lookup(self.spec_declarations(), name@) == Some(*d),
                None => lookup(self.spec_declarations(), name@) is None,
            },
    {
        self.declarations.get(name)
    }

    /// The number of compiled checks: as many as the pipeline has entries.
    pub fn len(&self) -> (n: usize)
        ensures
            n == self.spec_declarations().len(),
            self.wf() ==> n == self.spec_pipeline().len(),
    {
        proof {
            if self.wf() {
                lemma_compiled_checks_match_pipeline(*self);
            }
        }
        self.declarations.len()
    }

    /// Whether there are no compiled checks.
    pub fn is_empty(&self) -> (b: bool)
        ensures
            b == (self.spec_declarations().len() == 0),
    {
        self.declarations.is_empty()
    }
}

/// A compiled pipeline runs each declared check exactly once: it names
/// no check twice, it names exactly the declared checks, and so it has
/// as many entries as there are declarations.
pub proof fn lemma_compiled_checks_match_pipeline(c: CompiledChecks)
    requires
        c.wf(),
    ensures
        c.spec_pipeline().no_duplicates(),
        c.spec_pipeline().to_set() == entry_keys(c.spec_declarations()).to_set(),
        c.spec_declarations().len() == c.spec_pipeline().len(),
{
    let p = c.spec_pipeline();
    let d = c.spec_declarations();
    let ks = entry_keys(d);
    assert forall|i: int, j: int| 0 <= i < p.len() && 0 <= j < p.len() && i != j implies p[i]
        != p[j] by {
        if p[i] == p[j] {
            let (a, b) = if i < j {
                (i, j)
            } else {
                (j, i)
            };
            assert(p.take(b)[a] == p[b]);
            assert(pipeline_bad_at(p, d, b));
        }
    }
    assert forall|i: int, j: int| 0 <= i < ks.len() && 0 <= j < ks.len() && i != j implies ks[i]
        != ks[j] by {
        assert(ks[i] == d[i].0@ && ks[j] == d[j].0@);
    }
    assert forall|x: Seq<char>| p.to_set().contains(x) <==> ks.to_set().contains(x) by {
        if p.to_set().contains(x) {
            let i = choose|i: int| 0 <= i < p.len() && p[i] == x;
            assert(!pipeline_bad_at(p, d, i));
            let j = choose|j: int| 0 <= j < d.len() && (#[trigger] d[j]).0@ == x;
            assert(ks[j] == x);
        }
        if ks.to_set().contains(x) {
            let j = choose|j: int| 0 <= j < ks.len() && ks[j] == x;
            assert(!decl_bad_at(p, d, j));
            assert(d[j].0@ == x);
        }
    }
    assert(p.to_set() =~= ks.to_set());
    p.unique_seq_to_set();
    ks.unique_seq_to_set();
}

} // verus!
