//! Compilation of file set definitions into concrete file lists.
//!
//! Takes validated definitions with a topological order and a list of
//! repository-relative file paths, matches each primitive glob against
//! the list, and evaluates each compound expression over the sets
//! already resolved.

use vstd::prelude::*;

use super::error::{CompileError, FileSetError};
use super::expr::{eval, glob_is_match, glob_matches, refs, refs_resolved, Definition, Expr, FileSetTable, GlobPattern, SpecDefinition, SpecExpr};
use super::name::Name;
use super::validate::{all_refs_defined, def_deps, first_undefined, is_topological_order, names_view, Validator};
use super::error::ValidationError;
use crate::label::{has_key, key_index, keys_unique, lookup, Label, LabelMap};
use crate::path_set::{strings_view, PathSet};
use crate::sort::text_lt;

verus! {

/// Whether every value of a compiled map is a well-formed set.
pub open spec fn values_wf(m: Seq<(Name, PathSet)>) -> bool {
    forall|i: int| 0 <= i < m.len() ==> (#[trigger] m[i]).1.wf()
}

/// The files among `files` that the glob `pattern` matches.
pub open spec fn glob_set(pattern: Seq<char>, files: Seq<Seq<char>>) -> Set<Seq<char>> {
    files.to_set().filter(|f: Seq<char>| glob_matches(pattern, f))
}

/// Whether the set compiled for a definition is the one it defines: the
/// matching files for a glob, the expression's value for a compound.
pub open spec fn definition_holds(
    d: Definition,
    value: Set<Seq<char>>,
    files: Seq<Seq<char>>,
    m: Seq<(Name, PathSet)>,
) -> bool {
    match d.spec_def() {
        SpecDefinition::Primitive(g) => value == glob_set(g, files),
        SpecDefinition::Compound(e) => refs_resolved(e, m) && value == eval(e, m),
    }
}

/// Whether `m` is the compilation of `defs` over `files`: one entry for
/// each name of `ord`, each satisfying its definition.
pub open spec fn compiled(
    defs: Seq<(Name, Definition)>,
    files: Seq<Seq<char>>,
    ord: Seq<Seq<char>>,
    m: Seq<(Name, PathSet)>,
) -> bool {
    &&& keys_unique(m)
    &&& values_wf(m)
    &&& forall|x: Seq<char>| #![trigger has_key(m, x)] #![trigger ord.contains(x)] has_key(m, x) <==> ord.contains(x)
    &&& forall|p: int|
        0 <= p < m.len() ==> definition_holds(
            lookup(defs, (#[trigger] m[p]).0@)->0,
            m[p].1.set(),
            files,
            m,
        )
}

/// The value of an expression depends only on the sets of the names it
/// references.
pub proof fn lemma_eval_agree(e: SpecExpr, m1: Seq<(Name, PathSet)>, m2: Seq<(Name, PathSet)>)
    requires
        forall|k: int|
            0 <= k < refs(e).len() ==> lookup(m1, #[trigger] refs(e)[k]) == lookup(m2, refs(e)[k]),
    ensures
        eval(e, m1) == eval(e, m2),
    decreases e,
{
    match e {
        SpecExpr::Ref(n) => {
            assert(refs(e)[0] == n);
        },
        SpecExpr::Union(a, b) | SpecExpr::Intersection(a, b) | SpecExpr::Difference(a, b) => {
            assert forall|k: int| 0 <= k < refs(*a).len() implies lookup(m1, #[trigger] refs(*a)[k])
                == lookup(m2, refs(*a)[k]) by {
                assert(refs(e)[k] == refs(*a)[k]);
            }
            assert forall|k: int| 0 <= k < refs(*b).len() implies lookup(m1, #[trigger] refs(*b)[k])
                == lookup(m2, refs(*b)[k]) by {
                assert(refs(e)[refs(*a).len() + k] == refs(*b)[k]);
            }
            lemma_eval_agree(*a, m1, m2);
            lemma_eval_agree(*b, m1, m2);
        },
    }
}

/// Adding an entry with a new key keeps the lookups of the other keys,
/// and adds only that key.
proof fn lemma_lookup_insert(m: Seq<(Name, PathSet)>, pos: int, x: (Name, PathSet), k: Seq<char>)
    requires
        keys_unique(m),
        !has_key(m, x.0@),
        0 <= pos <= m.len(),
    ensures
        has_key(m.insert(pos, x), k) == (has_key(m, k) || k == x.0@),
        has_key(m, k) ==> lookup(m.insert(pos, x), k) == lookup(m, k),
{
    let m2 = m.insert(pos, x);
    if has_key(m, k) {
        let j = key_index(m, k);
        let j1 = if j < pos {
            j
        } else {
            j + 1
        };
        assert(m2[j1] == m[j]);
        assert(has_key(m2, k));
        let j2 = key_index(m2, k);
        if j2 == pos {
            assert(m2[j2] == x);
        } else if j2 < pos {
            assert(m2[j2] == m[j2]);
        } else {
            assert(m2[j2] == m[j2 - 1]);
        }
    }
    if has_key(m2, k) {
        let j2 = key_index(m2, k);
        if j2 < pos {
            assert(m2[j2] == m[j2]);
        } else if j2 > pos {
            assert(m2[j2] == m[j2 - 1]);
        }
    }
    if k == x.0@ {
        assert(m2[pos] == x);
    }
}

/// Compiles file set definitions into concrete file lists.
pub struct Compiler<'a> {
    files: &'a [String],
}

impl<'a> Compiler<'a> {
    /// Create a compiler for the given repository-relative file list.
    pub fn new(files: &'a [String]) -> (c: Self)
        ensures
            c.files() == strings_view(files@),
    {
        Compiler { files }
    }

    /// The files being matched.
    pub closed spec fn files(&self) -> Seq<Seq<char>> {
        strings_view(self.files@)
    }

    /// Compile every definition, following `order`; the resulting map
    /// lists them in name order.
    ///
    /// Glob patterns are valid by construction, so compilation always
    /// succeeds.
    pub fn compile(&self, definitions: &LabelMap<Name, Definition>, order: &[Name]) -> (r: Result<
        LabelMap<Name, PathSet>,
        CompileError,
    >)
        requires
            definitions.wf(),
            all_refs_defined(definitions.spec_entries()),
            is_topological_order(definitions.spec_entries(), names_view(order@)),
        ensures
            r matches Ok(m) && m.wf() && compiled(
                definitions.spec_entries(),
                self.files(),
                names_view(order@),
                m.spec_entries(),
            ),
    {
        let ghost defs = definitions.spec_entries();
        let ghost ord = names_view(order@);
        let mut resolved: LabelMap<Name, PathSet> = LabelMap::new();
        assert forall|y: Seq<char>| #[trigger] ord.take(0).contains(y) implies false by {
            let q = choose|q: int| 0 <= q < ord.take(0).len() && ord.take(0)[q] == y;
        }
        let mut p: usize = 0;
        while p < order.len()
            invariant
                defs == definitions.spec_entries(),
                ord == names_view(order@),
                definitions.wf(),
                all_refs_defined(defs),
                is_topological_order(defs, ord),
                p <= order.len(),
                resolved.wf(),
                compiled(defs, self.files(), ord.take(p as int), resolved.spec_entries()),
            decreases order.len() - p,
        {
            let name = &order[p];
            let ghost x = name@;
            assert(ord[p as int] == x);
            assert(ord.contains(x));
            let def = match definitions.get(name) {
                Some(d) => d,
                None => {
                    assert(has_key(defs, x));
                    return Ok(resolved);
                },
            };
            let ghost old_m = resolved.spec_entries();
            proof {
                assert(!has_key(old_m, x)) by {
                    if has_key(old_m, x) {
                        assert(ord.take(p as int).contains(x));
                        let q = choose|q: int| 0 <= q < p && #[trigger] ord.take(p as int)[q] == x;
                        assert(ord[q] == x);
                    }
                }
                assert forall|y: Seq<char>| ord.take(p as int).contains(y) implies #[trigger] has_key(
                    old_m,
                    y,
                ) by {}
            }
            let set = match def {
                Definition::Primitive(pattern) => self.expand_glob(pattern),
                Definition::Compound(expr) => {
                    proof {
                        self.lemma_refs_resolved(defs, ord, p as int, old_m, *def);
                    }
                    Compiler::evaluate(expr, &resolved)
                },
            };
            let ghost v = set;
            let nn = name.dup();
            let ghost gn = nn;
            resolved.insert(nn, set);
            proof {
                let m = resolved.spec_entries();
                let pos = choose|pos: int|
                    0 <= pos <= old_m.len() && m == old_m.insert(pos, (gn, v))
                        && (forall|i: int| 0 <= i < pos ==> text_lt((#[trigger] old_m[i]).0@, x))
                        && (forall|i: int| pos <= i < old_m.len() ==> text_lt(x, (#[trigger] old_m[i]).0@));
                let e = m[pos];
                assert(e.0@ == x && e.1 == v);
                assert(m == old_m.insert(pos, e));
                assert forall|y: Seq<char>| #![trigger has_key(m, y)] #![trigger ord.take(p + 1).contains(y)]
                    has_key(m, y) <==> ord.take(p + 1).contains(y) by {
                    lemma_lookup_insert(old_m, pos, e, y);
                    if ord.take(p + 1).contains(y) {
                        let q = choose|q: int| 0 <= q < p + 1 && #[trigger] ord.take(p + 1)[q] == y;
                        if q < p {
                            assert(ord.take(p as int)[q] == y);
                        }
                    }
                    if ord.take(p as int).contains(y) {
                        let q = choose|q: int| 0 <= q < p && #[trigger] ord.take(p as int)[q] == y;
                        assert(ord.take(p + 1)[q] == y);
                    }
                    if y == x {
                        assert(ord.take(p + 1)[p as int] == y);
                    }
                }
                assert forall|q: int| 0 <= q < m.len() implies (#[trigger] m[q]).1.wf() by {
                    if q < pos {
                        assert(m[q] == old_m[q]);
                    } else if q > pos {
                        assert(m[q] == old_m[q - 1]);
                    }
                }
                assert forall|q: int| 0 <= q < m.len() implies definition_holds(
                    lookup(defs, (#[trigger] m[q]).0@)->0,
                    m[q].1.set(),
                    self.files(),
                    m,
                ) by {
                    let dq = lookup(defs, m[q].0@)->0;
                    if q != pos {
                        let q1 = if q < pos {
                            q
                        } else {
                            q - 1
                        };
                        assert(m[q] == old_m[q1]);
                        assert(definition_holds(dq, old_m[q1].1.set(), self.files(), old_m));
                        match dq.spec_def() {
                            SpecDefinition::Compound(ex) => {
                                self.lemma_insert_keeps(ex, old_m, pos, e);
                            },
                            _ => {},
                        }
                    } else {
                        assert(lookup(defs, x) == Some(*def));
                        match def.spec_def() {
                            SpecDefinition::Compound(ex) => {
                                self.lemma_insert_keeps(ex, old_m, pos, e);
                            },
                            _ => {},
                        }
                    }
                }
            }
            p = p + 1;
        }
        assert(ord.take(order.len() as int) =~= ord);
        Ok(resolved)
    }

    /// Adding a new name to a compiled map keeps an expression's value
    /// when all its references were already resolved.
    proof fn lemma_insert_keeps(&self, e: SpecExpr, m: Seq<(Name, PathSet)>, pos: int, x: (Name, PathSet))
        requires
            keys_unique(m),
            !has_key(m, x.0@),
            0 <= pos <= m.len(),
            refs_resolved(e, m),
        ensures
            refs_resolved(e, m.insert(pos, x)),
            eval(e, m.insert(pos, x)) == eval(e, m),
    {
        assert forall|k: int| 0 <= k < refs(e).len() implies lookup(m, #[trigger] refs(e)[k])
            == lookup(m.insert(pos, x), refs(e)[k]) && lookup(m.insert(pos, x), refs(e)[k]) is Some by {
            assert(lookup(m, refs(e)[k]) is Some);
            lemma_lookup_insert(m, pos, x, refs(e)[k]);
        }
        lemma_eval_agree(e, m, m.insert(pos, x));
    }

    /// The references of the definition at position `p` of the order are
    /// resolved by the entries compiled before it.
    proof fn lemma_refs_resolved(
        &self,
        defs: Seq<(Name, Definition)>,
        ord: Seq<Seq<char>>,
        p: int,
        m: Seq<(Name, PathSet)>,
        d: Definition,
    )
        requires
            keys_unique(defs),
            is_topological_order(defs, ord),
            0 <= p < ord.len(),
            lookup(defs, ord[p]) == Some(d),
            forall|y: Seq<char>| ord.take(p).contains(y) ==> #[trigger] has_key(m, y),
            d.spec_def() matches SpecDefinition::Compound(_),
        ensures
            d.spec_def() matches SpecDefinition::Compound(e) && refs_resolved(e, m),
    {
        match d.spec_def() {
            SpecDefinition::Compound(e) => {
                assert forall|k: int| 0 <= k < refs(e).len() implies lookup(m, #[trigger] refs(e)[k]) is Some by {
                    assert(def_deps(d)[k] == refs(e)[k]);
                    assert(def_deps(lookup(defs, ord[p])->0)[k] == refs(e)[k]);
                    assert(ord.take(p).contains(def_deps(lookup(defs, ord[p])->0)[k]));
                    assert(has_key(m, refs(e)[k]));
                }
            },
            _ => {},
        }
    }

    /// Expand a glob pattern against the file list.
    fn expand_glob(&self, pattern: &GlobPattern) -> (s: PathSet)
        ensures
            s.wf(),
            s.set() == glob_set(pattern@, self.files()),
    {
        let pat = pattern.as_str();
        let mut s = PathSet::new();
        let mut i: usize = 0;
        while i < self.files.len()
            invariant
                i <= self.files.len(),
                s.wf(),
                pat@ == pattern@,
                super::expr::glob_builds(pat@),
                s.set() == glob_set(pattern@, self.files().take(i as int)),
            decreases self.files.len() - i,
        {
            let f = &self.files[i];
            if glob_is_match(pat, f.as_str()) {
                s.insert(f.clone());
            }
            proof {
                let fs = self.files();
                assert(fs.take(i + 1) =~= fs.take(i as int).push(fs[i as int]));
                assert(fs[i as int] == f@);
                assert(s.set() =~= glob_set(pattern@, fs.take(i + 1))) by {
                    assert forall|y: Seq<char>| #[trigger] fs.take(i + 1).contains(y) <==> (fs.take(
                        i as int,
                    ).contains(y) || y == f@) by {
                        if fs.take(i + 1).contains(y) {
                            let j = choose|j: int| 0 <= j < i + 1 && #[trigger] fs.take(i + 1)[j] == y;
                            if j < i {
                                assert(fs.take(i as int)[j] == y);
                            }
                        }
                        if fs.take(i as int).contains(y) {
                            let j = choose|j: int| 0 <= j < i && #[trigger] fs.take(i as int)[j] == y;
                            assert(fs.take(i + 1)[j] == y);
                        }
                        if y == f@ {
                            assert(fs.take(i + 1)[i as int] == y);
                        }
                    }
                }
            }
            i = i + 1;
        }
        assert(self.files().take(self.files.len() as int) =~= self.files());
        s
    }

    /// Evaluate an expression against already-resolved sets.
    pub fn evaluate(expr: &Expr, resolved: &LabelMap<Name, PathSet>) -> (s: PathSet)
        requires
            resolved.wf(),
            values_wf(resolved.spec_entries()),
            refs_resolved(expr.spec_expr(), resolved.spec_entries()),
        ensures
            s.wf(),
            s.set() == eval(expr.spec_expr(), resolved.spec_entries()),
        decreases expr,
    {
        let ghost m = resolved.spec_entries();
        match expr {
            Expr::Ref(name) => {
                assert(refs(expr.spec_expr())[0] == name@);
                match resolved.get(name) {
                    Some(set) => {
                        proof {
                            let i = key_index(m, name@);
                            assert(m[i].1.wf());
                        }
                        set.clone()
                    },
                    None => PathSet::new(),
                }
            },
            Expr::Union(a, b) | Expr::Intersection(a, b) | Expr::Difference(a, b) => {
                proof {
                    let e = expr.spec_expr();
                    assert forall|k: int| 0 <= k < refs(a.spec_expr()).len() implies lookup(
                        m,
                        #[trigger] refs(a.spec_expr())[k],
                    ) is Some by {
                        assert(refs(e)[k] == refs(a.spec_expr())[k]);
                    }
                    assert forall|k: int| 0 <= k < refs(b.spec_expr()).len() implies lookup(
                        m,
                        #[trigger] refs(b.spec_expr())[k],
                    ) is Some by {
                        assert(refs(e)[refs(a.spec_expr()).len() + k] == refs(b.spec_expr())[k]);
                    }
                }
                let sa = Compiler::evaluate(a, resolved);
                let sb = Compiler::evaluate(b, resolved);
                match expr {
                    Expr::Union(_, _) => sa.union(&sb),
                    Expr::Intersection(_, _) => sa.intersection(&sb),
                    _ => sa.difference(&sb),
                }
            },
        }
    }
}

/// What compiling the definitions `defs` over `files` gives: on success
/// a map (in name order) holding, for each definition, the set it
/// defines, each compiled after the sets it references; otherwise the
/// first undefined reference, or a cycle when every reference is
/// defined.
pub open spec fn fileset_compile_result(
    defs: Seq<(Name, Definition)>,
    files: Seq<Seq<char>>,
    r: Result<LabelMap<Name, PathSet>, FileSetError>,
) -> bool {
    match r {
        Ok(m) => m.wf() && all_refs_defined(defs) && exists|ord: Seq<Seq<char>>|
            is_topological_order(defs, ord) && compiled(defs, files, ord, m.spec_entries()),
        Err(FileSetError::Validation(ValidationError::Undefined { name, referenced_by })) => exists|
            i: int,
            k: int,
        |
            first_undefined(defs, i, k) && name@ == def_deps(defs[i].1)[k] && referenced_by@
                == defs[i].0@,
        Err(FileSetError::Validation(ValidationError::Cycle { cycle: _ })) => all_refs_defined(defs)
            && !exists|ord: Seq<Seq<char>>| is_topological_order(defs, ord),
        Err(FileSetError::Compile(_)) => false,
    }
}

impl FileSetTable {
    /// Validate and compile all definitions against a file list.
    ///
    /// Structural errors come first (see [`Validator::validate`]); on
    /// success every definition is compiled, after the sets it references,
    /// and the map lists them in name order.
    pub fn compile(&self, files: &[String]) -> (r: Result<LabelMap<Name, PathSet>, FileSetError>)
        requires
            self.wf(),
        ensures
            fileset_compile_result(self.spec_definitions(), strings_view(files@), r),
    {
        let defs = self.definitions();
        let order = match Validator::new(defs).validate() {
            Ok(o) => o,
            Err(e) => return Err(FileSetError::Validation(e)),
        };
        let c = Compiler::new(files);
        match c.compile(defs, order.as_slice()) {
            Ok(m) => Ok(m),
            Err(e) => Err(FileSetError::Compile(e)),
        }
    }
}

} // verus!
