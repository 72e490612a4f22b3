//! File set expressions, definitions, and the `[filesets]` table.

use vstd::prelude::*;
use vstd::string::*;

use wax::Program;

use super::error::GlobPatternError;
use super::name::Name;
use crate::label::{lookup, LabelMap};
use crate::path_set::PathSet;

verus! {

/// What `wax::Glob::new` says of `pattern`: nothing when it builds a
/// glob, else the text (`Display`) of its `wax::BuildError`.
pub uninterp spec fn glob_build_error(pattern: Seq<char>) -> Option<Seq<char>>;

/// What a left-to-right reading of a glob has seen so far, with wax's
/// lexical rules: `\` escapes the next character, `[`…`]` is a
/// character class (braces inside it are plain characters), `{`…`}` and
/// `<`…`>` open and close alternations and repetitions, and a `:` inside
/// a repetition starts its bounds, digits separated by `,`.
pub struct GlobShape {
    pub escaped: bool,
    pub in_class: bool,
    pub in_bounds: bool,
    /// Alternations and repetitions open here.
    pub depth: nat,
    /// Digits in the bound being read.
    pub run: nat,
    /// The largest `depth` so far.
    pub deepest: nat,
    /// The largest `run` so far.
    pub longest_run: nat,
}

/// The reading before any character.
pub open spec fn shape_start() -> GlobShape {
    GlobShape {
        escaped: false,
        in_class: false,
        in_bounds: false,
        depth: 0,
        run: 0,
        deepest: 0,
        longest_run: 0,
    }
}

/// The reading after one more character `c`.
pub open spec fn shape_step(st: GlobShape, c: char) -> GlobShape {
    if st.escaped {
        GlobShape { escaped: false, in_bounds: false, run: 0, ..st }
    } else if c == '\\' {
        GlobShape { escaped: true, ..st }
    } else if st.in_class {
        if c == ']' {
            GlobShape { in_class: false, ..st }
        } else {
            st
        }
    } else if c == '[' {
        GlobShape { in_class: true, in_bounds: false, run: 0, ..st }
    } else if c == '{' || c == '<' {
        let d = st.depth + 1;
        GlobShape {
            depth: d,
            deepest: if d > st.deepest {
                d
            } else {
                st.deepest
            },
            in_bounds: false,
            run: 0,
            ..st
        }
    } else if c == '}' || c == '>' {
        GlobShape {
            depth: if st.depth > 0 {
                (st.depth - 1) as nat
            } else {
                0
            },
            in_bounds: false,
            run: 0,
            ..st
        }
    } else if c == ':' {
        GlobShape { in_bounds: true, run: 0, ..st }
    } else if st.in_bounds && c == ',' {
        GlobShape { run: 0, ..st }
    } else if st.in_bounds && '0' <= c && c <= '9' {
        let r = st.run + 1;
        GlobShape {
            run: r,
            longest_run: if r > st.longest_run {
                r
            } else {
                st.longest_run
            },
            ..st
        }
    } else {
        GlobShape { in_bounds: false, run: 0, ..st }
    }
}

/// The reading of the whole pattern `s`.
pub open spec fn glob_shape(s: Seq<char>) -> GlobShape
    decreases s.len(),
{
    if s.len() == 0 {
        shape_start()
    } else {
        shape_step(glob_shape(s.drop_last()), s.last())
    }
}

/// The deepest nesting of alternations and repetitions this library
/// hands to wax.
pub const GLOB_MAX_NESTING: usize = 32;

/// The most digits of a repetition bound this library hands to wax.
pub const GLOB_MAX_BOUND_DIGITS: usize = 9;

/// Whether `pattern` stays within the limits under which `wax::Glob::new`
/// returns rather than panics: alternations and repetitions nest at most
/// `GLOB_MAX_NESTING` deep, and no repetition bound has more than
/// `GLOB_MAX_BOUND_DIGITS` digits.
pub open spec fn glob_within_limits(pattern: Seq<char>) -> bool {
    &&& glob_shape(pattern).deepest <= GLOB_MAX_NESTING
    &&& glob_shape(pattern).longest_run <= GLOB_MAX_BOUND_DIGITS
}

/// Why a pattern beyond the limits is refused.
pub open spec fn glob_limit_reason(pattern: Seq<char>) -> Seq<char> {
    if glob_shape(pattern).deepest > GLOB_MAX_NESTING {
        "alternations and repetitions nest more than 32 levels deep"@
    } else {
        "a repetition bound has more than 9 digits"@
    }
}

/// Whether `pattern` is within the limits and `wax::Glob::new` accepts it.
pub open spec fn glob_builds(pattern: Seq<char>) -> bool {
    glob_within_limits(pattern) && glob_build_error(pattern) is None
}

/// Read `pattern` as [`glob_shape`] does: the deepest nesting of
/// alternations and repetitions, and the most digits in a repetition
/// bound.
pub fn glob_nesting(pattern: &str) -> (r: (usize, usize))
    ensures
        r.0 == glob_shape(pattern@).deepest,
        r.1 == glob_shape(pattern@).longest_run,
{
    let cs = crate::text::chars_of(pattern);
    let mut escaped = false;
    let mut in_class = false;
    let mut in_bounds = false;
    let mut depth: usize = 0;
    let mut run: usize = 0;
    let mut deepest: usize = 0;
    let mut longest_run: usize = 0;
    let mut i: usize = 0;
    while i < cs.len()
        invariant
            cs@ == pattern@,
            i <= cs.len(),
            depth <= i,
            run <= i,
            deepest <= i,
            longest_run <= i,
            glob_shape(pattern@.take(i as int)) == (GlobShape {
                escaped,
                in_class,
                in_bounds,
                depth: depth as nat,
                run: run as nat,
                deepest: deepest as nat,
                longest_run: longest_run as nat,
            }),
        decreases cs.len() - i,
    {
        let c = cs[i];
        proof {
            assert(pattern@.take(i + 1).drop_last() =~= pattern@.take(i as int));
            assert(pattern@.take(i + 1).last() == c);
        }
        if escaped {
            escaped = false;
            in_bounds = false;
            run = 0;
        } else if c == '\\' {
            escaped = true;
        } else if in_class {
            if c == ']' {
                in_class = false;
            }
        } else if c == '[' {
            in_class = true;
            in_bounds = false;
            run = 0;
        } else if c == '{' || c == '<' {
            depth = depth + 1;
            if depth > deepest {
                deepest = depth;
            }
            in_bounds = false;
            run = 0;
        } else if c == '}' || c == '>' {
            if depth > 0 {
                depth = depth - 1;
            }
            in_bounds = false;
            run = 0;
        } else if c == ':' {
            in_bounds = true;
            run = 0;
        } else if in_bounds && c == ',' {
            run = 0;
        } else if in_bounds && '0' <= c && c <= '9' {
            run = run + 1;
            if run > longest_run {
                longest_run = run;
            }
        } else {
            in_bounds = false;
            run = 0;
        }
        i = i + 1;
    }
    proof {
        assert(pattern@.take(cs.len() as int) =~= pattern@);
    }
    (deepest, longest_run)
}

/// Whether the glob built from `pattern` matches the candidate `path`
/// (`wax::Program::is_match`).
pub uninterp spec fn glob_matches(pattern: Seq<char>, path: Seq<char>) -> bool;

/// Calls `wax::Glob::new(pattern)`: `Ok` when the glob builds, else the
/// `Display` text of the `wax::BuildError`; both are named by
/// `glob_build_error`.
///
/// `wax::Glob::new` panics ("failed to compile glob") when the regular
/// expression it writes is refused for anything but its size. Within
/// the limits required here that does not happen: each level of
/// alternation or repetition adds at most five levels of regex nesting,
/// so 32 levels stay well below the regex parser's limit of 250; and a
/// bound of at most nine digits fits the `u32` the regex parser reads.
#[verifier::external_body]
fn glob_build_check(pattern: &str) -> (r: Result<(), String>)
    requires
        glob_within_limits(pattern@),
    ensures
        match r {
            Ok(()) => glob_build_error(pattern@) is None,
            Err(m) => glob_build_error(pattern@) == Some(m@),
        },
{
    match wax::Glob::new(pattern) {
        Ok(_) => Ok(()),
        Err(err) => Err(err.to_string()),
    }
}

/// Builds `wax::Glob::new(pattern)` and calls `wax::Program::is_match` on
/// `path`; the result is the named match relation.
#[verifier::external_body]
pub(crate) fn glob_is_match(pattern: &str, path: &str) -> (r: bool)
    requires
        glob_builds(pattern@),
    ensures
        r == glob_matches(pattern@, path@),
{
    match wax::Glob::new(pattern) {
        Ok(glob) => glob.is_match(path),
        Err(_) => false,
    }
}

/// A validated glob pattern string (e.g. `auth/**`, `docs/**/*.md`).
///
/// Invariant: the pattern is accepted by `wax::Glob::new`, so errors
/// surface when the pattern is constructed rather than when the rulebook
/// is compiled.
#[derive(Debug, PartialEq, Eq)]
pub struct GlobPattern(String);

impl Clone for GlobPattern {
    /// A copy of this pattern.
    fn clone(&self) -> (r: Self)
        ensures
            r@ == self@,
    {
        self.duplicate()
    }
}

impl View for GlobPattern {
    type V = Seq<char>;

    closed spec fn view(&self) -> Seq<char> {
        self.0@
    }
}

impl GlobPattern {
    /// The invariant: the pattern builds.
    #[verifier::type_invariant]
    spec fn builds(self) -> bool {
        glob_builds(self.0@)
    }

    /// Create a new `GlobPattern`, validating that `wax::Glob` can parse it.
    /// A pattern beyond [`glob_within_limits`] is refused before wax sees
    /// it, with the reason [`glob_limit_reason`].
    pub fn new(pattern: &str) -> (r: Result<Self, GlobPatternError>)
        ensures
            match r {
                Ok(g) => g@ == pattern@ && glob_builds(pattern@),
                Err(GlobPatternError::Invalid { pattern: p, reason }) => p@ == pattern@ && if glob_within_limits(
                    pattern@,
                ) {
                    glob_build_error(pattern@) == Some(reason@)
                } else {
                    reason@ == glob_limit_reason(pattern@)
                },
            },
    {
        let (deepest, digits) = glob_nesting(pattern);
        if deepest > GLOB_MAX_NESTING || digits > GLOB_MAX_BOUND_DIGITS {
            let reason = if deepest > GLOB_MAX_NESTING {
                String::from_str("alternations and repetitions nest more than 32 levels deep")
            } else {
                String::from_str("a repetition bound has more than 9 digits")
            };
            return Err(GlobPatternError::Invalid { pattern: String::from_str(pattern), reason });
        }
        match glob_build_check(pattern) {
            Ok(()) => Ok(GlobPattern(String::from_str(pattern))),
            Err(reason) => Err(GlobPatternError::Invalid { pattern: String::from_str(pattern), reason }),
        }
    }

    /// The raw pattern string.
    pub fn as_str(&self) -> (r: &str)
        ensures
            r@ == self@,
            glob_builds(self@),
    {
        proof {
            use_type_invariant(self);
        }
        self.0.as_str()
    }

    /// A copy of this pattern.
    pub fn duplicate(&self) -> (r: Self)
        ensures
            r@ == self@,
    {
        proof {
            use_type_invariant(self);
        }
        GlobPattern(self.0.clone())
    }
}

/// The mathematical form of an expression: names as character sequences.
pub enum SpecExpr {
    Ref(Seq<char>),
    Union(Box<SpecExpr>, Box<SpecExpr>),
    Intersection(Box<SpecExpr>, Box<SpecExpr>),
    Difference(Box<SpecExpr>, Box<SpecExpr>),
}

/// A file set expression in the algebra.
///
/// ```text
/// expr  ::= name | expr "|" expr | expr "&" expr | expr "-" expr | "(" expr ")"
/// ```
///
/// All binary operators have equal precedence with left-to-right
/// associativity.
#[derive(Debug, PartialEq, Eq)]
pub enum Expr {
    /// Reference to a named file set.
    Ref(Name),
    /// Union: every file in either set.
    Union(Box<Expr>, Box<Expr>),
    /// Intersection: only files present in both sets.
    Intersection(Box<Expr>, Box<Expr>),
    /// Difference: files in the left set not in the right.
    Difference(Box<Expr>, Box<Expr>),
}

impl Expr {
    /// The mathematical form of this expression.
    pub open spec fn spec_expr(&self) -> SpecExpr
        decreases self,
    {
        match self {
            Expr::Ref(n) => SpecExpr::Ref(n@),
            Expr::Union(a, b) => SpecExpr::Union(Box::new(a.spec_expr()), Box::new(b.spec_expr())),
            Expr::Intersection(a, b) => SpecExpr::Intersection(
                Box::new(a.spec_expr()),
                Box::new(b.spec_expr()),
            ),
            Expr::Difference(a, b) => SpecExpr::Difference(
                Box::new(a.spec_expr()),
                Box::new(b.spec_expr()),
            ),
        }
    }

    /// A structural copy of this expression.
    pub fn duplicate(&self) -> (r: Self)
        ensures
            r.spec_expr() == self.spec_expr(),
        decreases self,
    {
        match self {
            Expr::Ref(n) => Expr::Ref(crate::label::Label::dup(n)),
            Expr::Union(a, b) => Expr::Union(Box::new(a.duplicate()), Box::new(b.duplicate())),
            Expr::Intersection(a, b) => Expr::Intersection(
                Box::new(a.duplicate()),
                Box::new(b.duplicate()),
            ),
            Expr::Difference(a, b) => Expr::Difference(
                Box::new(a.duplicate()),
                Box::new(b.duplicate()),
            ),
        }
    }
}

impl Clone for Expr {
    /// A structural copy.
    fn clone(&self) -> (r: Self)
        ensures
            r.spec_expr() == self.spec_expr(),
    {
        self.duplicate()
    }
}

/// The names an expression references, left to right.
pub open spec fn refs(e: SpecExpr) -> Seq<Seq<char>>
    decreases e,
{
    match e {
        SpecExpr::Ref(n) => seq![n],
        SpecExpr::Union(a, b) => refs(*a) + refs(*b),
        SpecExpr::Intersection(a, b) => refs(*a) + refs(*b),
        SpecExpr::Difference(a, b) => refs(*a) + refs(*b),
    }
}

/// Whether every name `e` references is a key of `env`.
pub open spec fn refs_resolved(e: SpecExpr, env: Seq<(Name, PathSet)>) -> bool {
    forall|k: int| 0 <= k < refs(e).len() ==> lookup(env, #[trigger] refs(e)[k]) is Some
}

/// The set of files an expression denotes, given the sets already
/// resolved for each name.
pub open spec fn eval(e: SpecExpr, env: Seq<(Name, PathSet)>) -> Set<Seq<char>>
    decreases e,
{
    match e {
        SpecExpr::Ref(n) => match lookup(env, n) {
            Some(s) => s.set(),
            None => Set::empty(),
        },
        SpecExpr::Union(a, b) => eval(*a, env).union(eval(*b, env)),
        SpecExpr::Intersection(a, b) => eval(*a, env).intersect(eval(*b, env)),
        SpecExpr::Difference(a, b) => eval(*a, env).difference(eval(*b, env)),
    }
}

/// A file set definition: a primitive glob binding or a compound
/// expression.
#[derive(Debug, PartialEq, Eq)]
pub enum Definition {
    /// A primitive file set bound to a glob pattern.
    Primitive(GlobPattern),
    /// A compound file set defined by a set expression.
    Compound(Expr),
}

/// The mathematical form of a definition.
pub enum SpecDefinition {
    Primitive(Seq<char>),
    Compound(SpecExpr),
}

impl Definition {
    /// The mathematical form of this definition.
    pub open spec fn spec_def(&self) -> SpecDefinition {
        match self {
            Definition::Primitive(g) => SpecDefinition::Primitive(g@),
            Definition::Compound(e) => SpecDefinition::Compound(e.spec_expr()),
        }
    }
}

impl Clone for Definition {
    /// A structural copy.
    fn clone(&self) -> (r: Self)
        ensures
            r.spec_def() == self.spec_def(),
    {
        match self {
            Definition::Primitive(g) => Definition::Primitive(g.duplicate()),
            Definition::Compound(e) => Definition::Compound(e.duplicate()),
        }
    }
}

/// The complete set of file set definitions from a rulebook's
/// `[filesets]` table, in name order with unique names.
#[derive(Debug)]
pub struct FileSetTable {
    definitions: LabelMap<Name, Definition>,
}

impl FileSetTable {
    /// The definitions, in name order.
    pub closed spec fn spec_definitions(&self) -> Seq<(Name, Definition)> {
        self.definitions.spec_entries()
    }

    /// Well-formedness: names are unique.
    pub closed spec fn wf(&self) -> bool {
        self.definitions.wf()
    }

    /// An empty table.
    pub fn new() -> (t: Self)
        ensures
            t.wf(),
            t.spec_definitions() == Seq::<(Name, Definition)>::empty(),
    {
        FileSetTable { definitions: LabelMap::new() }
    }

    /// Add or replace the definition for `name`.
    pub fn insert(&mut self, name: Name, def: Definition)
        requires
            old(self).wf(),
        ensures
            final(self).wf(),
            crate::label::has_key(old(self).spec_definitions(), name@)
                ==> final(self).spec_definitions() == old(self).spec_definitions().update(
                crate::label::key_index(old(self).spec_definitions(), name@),
                (name, def),
            ),
            !crate::label::has_key(old(self).spec_definitions(), name@)
                ==> crate::label::inserted_in_order(
                old(self).spec_definitions(),
                (name, def),
                final(self).spec_definitions(),
            ),
    {
        self.definitions.insert(name, def);
    }

    /// The underlying definitions map.
    pub fn definitions(&self) -> (d: &LabelMap<Name, Definition>)
        ensures
            d.spec_entries() == self.spec_definitions(),
            self.wf() ==> d.wf(),
    {
        &self.definitions
    }

    /// Consume the table and return the inner map.
    pub fn into_definitions(self) -> (d: LabelMap<Name, Definition>)
        ensures
            d.spec_entries() == self.spec_definitions(),
            self.wf() ==> d.wf(),
    {
        self.definitions
    }
}

impl Default for FileSetTable {
    fn default() -> (t: Self)
        ensures
            t.wf(),
            t.spec_definitions() == Seq::<(Name, Definition)>::empty(),
    {
        FileSetTable::new()
    }
}

} // verus!
