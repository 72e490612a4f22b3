//! Structural validation of file set definitions.
//!
//! Every name a compound expression references must be defined, and the
//! reference graph must admit a topological order (no cycles). The
//! validator returns such an order, which compilation then follows.

use vstd::prelude::*;

use super::error::ValidationError;
use super::expr::{refs, Definition, Expr, SpecDefinition, SpecExpr};
use super::name::Name;
use crate::label::{has_key, key_index, lookup, Label, LabelMap};
use crate::text::push_char;

verus! {

/// The names a definition depends on, left to right.
pub open spec fn def_deps(d: Definition) -> Seq<Seq<char>> {
    match d.spec_def() {
        SpecDefinition::Primitive(_) => seq![],
        SpecDefinition::Compound(e) => refs(e),
    }
}

/// Whether dependency `k` of definition `i` names no definition.
pub open spec fn undefined_at(defs: Seq<(Name, Definition)>, i: int, k: int) -> bool {
    &&& 0 <= i < defs.len()
    &&& 0 <= k < def_deps(defs[i].1).len()
    &&& !has_key(defs, def_deps(defs[i].1)[k])
}

/// Whether every referenced name is defined.
pub open spec fn all_refs_defined(defs: Seq<(Name, Definition)>) -> bool {
    forall|i: int, k: int| !undefined_at(defs, i, k)
}

/// Whether `(i, k)` is the first undefined reference: definitions in
/// order, references left to right within each.
pub open spec fn first_undefined(defs: Seq<(Name, Definition)>, i: int, k: int) -> bool {
    &&& undefined_at(defs, i, k)
    &&& forall|i2: int, k2: int| 0 <= i2 < i ==> !undefined_at(defs, i2, k2)
    &&& forall|k2: int| 0 <= k2 < k ==> !undefined_at(defs, i, k2)
}

/// Whether `ord` lists every defined name exactly once, each after all
/// the names its definition references.
pub open spec fn is_topological_order(defs: Seq<(Name, Definition)>, ord: Seq<Seq<char>>) -> bool {
    &&& ord.no_duplicates()
    &&& ord.len() == defs.len()
    &&& forall|x: Seq<char>| #[trigger] ord.contains(x) <==> has_key(defs, x)
    &&& forall|p: int, k: int|
        0 <= p < ord.len() && 0 <= k < def_deps(lookup(defs, ord[p])->0).len() ==> #[trigger] ord.take(
            p,
        ).contains(#[trigger] def_deps(lookup(defs, ord[p])->0)[k])
}

/// The character sequences of a list of names.
pub open spec fn names_view(v: Seq<Name>) -> Seq<Seq<char>> {
    v.map_values(|n: Name| n@)
}

/// The names an expression references, left to right.
pub fn collect_refs(e: &Expr) -> (r: Vec<Name>)
    ensures
        names_view(r@) == refs(e.spec_expr()),
    decreases e,
{
    match e {
        Expr::Ref(n) => {
            let mut v = Vec::new();
            v.push(n.dup());
            assert(names_view(v@) =~= seq![n@]);
            v
        },
        Expr::Union(a, b) | Expr::Intersection(a, b) | Expr::Difference(a, b) => {
            let mut va = collect_refs(a);
            let mut vb = collect_refs(b);
            let ghost sa = va@;
            let ghost sb = vb@;
            va.append(&mut vb);
            assert(va@ == sa + sb);
            assert(names_view(va@) =~= names_view(sa) + names_view(sb));
            va
        },
    }
}

/// The dependencies of a definition.
fn definition_deps(d: &Definition) -> (r: Vec<Name>)
    ensures
        names_view(r@) == def_deps(*d),
{
    match d {
        Definition::Primitive(_) => {
            let v: Vec<Name> = Vec::new();
            assert(names_view(v@) =~= seq![]);
            v
        },
        Definition::Compound(e) => collect_refs(e),
    }
}

/// Validates file set definitions for undefined references and cycles.
pub struct Validator<'a> {
    definitions: &'a LabelMap<Name, Definition>,
}

impl<'a> Validator<'a> {
    /// Create a validator for `definitions`.
    pub fn new(definitions: &'a LabelMap<Name, Definition>) -> (v: Self)
        ensures
            v.defs() == definitions.spec_entries(),
            v.wf() == definitions.wf(),
    {
        Validator { definitions }
    }

    /// The definitions being validated.
    pub closed spec fn defs(&self) -> Seq<(Name, Definition)> {
        self.definitions.spec_entries()
    }

    /// Whether the definition names are unique.
    pub closed spec fn wf(&self) -> bool {
        self.definitions.wf()
    }

    /// Check references, then order the definitions topologically.
    ///
    /// The first undefined reference is reported, scanning definitions in
    /// order and references left to right. Otherwise the result is a
    /// topological order exactly when one exists.
    pub fn validate(&self) -> (r: Result<Vec<Name>, ValidationError>)
        requires
            self.wf(),
        ensures
            match r {
                Ok(order) => all_refs_defined(self.defs()) && is_topological_order(
                    self.defs(),
                    names_view(order@),
                ),
                Err(ValidationError::Undefined { name, referenced_by }) => exists|i: int, k: int|
                    first_undefined(self.defs(), i, k) && name@ == def_deps(self.defs()[i].1)[k]
                        && referenced_by@ == self.defs()[i].0@,
                Err(ValidationError::Cycle { cycle: _ }) => all_refs_defined(self.defs()) && !exists|
                    ord: Seq<Seq<char>>,
                | is_topological_order(self.defs(), ord),
            },
    {
        let deps = match self.check_defined() {
            Err(e) => return Err(e),
            Ok(d) => d,
        };
        self.order(&deps)
    }

    /// Collect every definition's dependencies, failing at the first
    /// undefined reference.
    fn check_defined(&self) -> (r: Result<Vec<Vec<Name>>, ValidationError>)
        requires
            self.wf(),
        ensures
            match r {
                Ok(deps) => all_refs_defined(self.defs()) && deps.len() == self.defs().len()
                    && forall|i: int|
                    0 <= i < deps.len() ==> names_view(#[trigger] deps@[i]@) == def_deps(
                        self.defs()[i].1,
                    ),
                Err(ValidationError::Undefined { name, referenced_by }) => exists|i: int, k: int|
                    first_undefined(self.defs(), i, k) && name@ == def_deps(self.defs()[i].1)[k]
                        && referenced_by@ == self.defs()[i].0@,
                Err(ValidationError::Cycle { cycle: _ }) => false,
            },
    {
        let defs = self.definitions;
        let n = defs.len();
        let mut all: Vec<Vec<Name>> = Vec::new();
        let mut i: usize = 0;
        while i < n
            invariant
                n == self.defs().len(),
                defs.spec_entries() == self.defs(),
                i <= n,
                all.len() == i,
                forall|j: int| 0 <= j < i ==> names_view(#[trigger] all@[j]@) == def_deps(self.defs()[j].1),
                forall|i2: int, k2: int| 0 <= i2 < i ==> !undefined_at(self.defs(), i2, k2),
            decreases n - i,
        {
            let d = definition_deps(defs.value_at(i));
            let mut k: usize = 0;
            while k < d.len()
                invariant
                    n == self.defs().len(),
                    defs.spec_entries() == self.defs(),
                    i < n,
                    k <= d.len(),
                    names_view(d@) == def_deps(self.defs()[i as int].1),
                    forall|i2: int, k2: int| 0 <= i2 < i ==> !undefined_at(self.defs(), i2, k2),
                    forall|k2: int| 0 <= k2 < k ==> !undefined_at(self.defs(), i as int, k2),
                decreases d.len() - k,
            {
                if !defs.contains_key(&d[k]) {
                    proof {
                        assert(names_view(d@)[k as int] == d@[k as int]@);
                        assert(undefined_at(self.defs(), i as int, k as int));
                        assert(first_undefined(self.defs(), i as int, k as int));
                    }
                    return Err(
                        ValidationError::Undefined { name: d[k].dup(), referenced_by: defs.key_at(i).dup() },
                    );
                }
                k = k + 1;
            }
            proof {
                assert forall|k2: int| !undefined_at(self.defs(), i as int, k2) by {
                    if 0 <= k2 < d.len() {
                    }
                }
            }
            all.push(d);
            i = i + 1;
        }
        Ok(all)
    }

    /// Whether every dependency in `ds` names a placed definition.
    fn all_placed(&self, ds: &Vec<Name>, placed: &Vec<bool>) -> (b: bool)
        requires
            self.wf(),
            all_refs_defined(self.defs()),
            placed.len() == self.defs().len(),
            forall|k: int| 0 <= k < ds.len() ==> has_key(self.defs(), #[trigger] ds@[k]@),
        ensures
            b == forall|k: int|
                0 <= k < ds.len() ==> placed@[key_index(self.defs(), #[trigger] ds@[k]@)],
    {
        let mut k: usize = 0;
        while k < ds.len()
            invariant
                self.wf(),
                placed.len() == self.defs().len(),
                k <= ds.len(),
                forall|k: int| 0 <= k < ds.len() ==> has_key(self.defs(), #[trigger] ds@[k]@),
                forall|k2: int| 0 <= k2 < k ==> placed@[key_index(self.defs(), #[trigger] ds@[k2]@)],
            decreases ds.len() - k,
        {
            match self.definitions.position(&ds[k]) {
                Some(j) => {
                    proof {
                        let e = self.defs();
                        assert(has_key(e, ds@[k as int]@));
                        let ki = key_index(e, ds@[k as int]@);
                        assert(e[ki].0@ == ds@[k as int]@);
                        assert(ki == j as int);
                    }
                    if !placed[j] {
                        return false;
                    }
                },
                None => {
                    assert(has_key(self.defs(), ds@[k as int]@));
                    return false;
                },
            }
            k = k + 1;
        }
        true
    }

    /// Place definitions whose dependencies are all placed, pass after
    /// pass, until all are placed or a pass places none.
    fn order(&self, deps: &Vec<Vec<Name>>) -> (r: Result<Vec<Name>, ValidationError>)
        requires
            self.wf(),
            all_refs_defined(self.defs()),
            deps.len() == self.defs().len(),
            forall|i: int| 0 <= i < deps.len() ==> names_view(#[trigger] deps@[i]@) == def_deps(self.defs()[i].1),
        ensures
            match r {
                Ok(order) => is_topological_order(self.defs(), names_view(order@)),
                Err(ValidationError::Cycle { cycle: _ }) => !exists|ord: Seq<Seq<char>>|
                    is_topological_order(self.defs(), ord),
                Err(_) => false,
            },
    {
        let defs = self.definitions;
        let n = defs.len();
        let ghost e = self.defs();
        let mut placed: Vec<bool> = Vec::new();
        let mut i: usize = 0;
        while i < n
            invariant
                i <= n,
                placed.len() == i,
                forall|j: int| 0 <= j < i ==> !placed@[j],
            decreases n - i,
        {
            placed.push(false);
            i = i + 1;
        }
        let mut order: Vec<Name> = Vec::new();
        proof {
            lemma_keys_nodup(e);
        }
        loop
            invariant
                self.wf(),
                e == self.defs(),
                defs.spec_entries() == e,
                n == e.len(),
                all_refs_defined(e),
                deps.len() == n,
                forall|i: int| 0 <= i < deps.len() ==> names_view(#[trigger] deps@[i]@) == def_deps(e[i].1),
                placed.len() == n,
                order_inv(e, placed@, names_view(order@)),
            decreases n - order.len(),
        {
            let ghost start_len = order.len();
            let ghost start_placed = placed@;
            let mut progress = false;
            let mut i: usize = 0;
            while i < n
                invariant
                    self.wf(),
                    e == self.defs(),
                    defs.spec_entries() == e,
                    n == e.len(),
                    all_refs_defined(e),
                    deps.len() == n,
                    forall|i: int| 0 <= i < deps.len() ==> names_view(#[trigger] deps@[i]@) == def_deps(e[i].1),
                    placed.len() == n,
                    i <= n,
                    order_inv(e, placed@, names_view(order@)),
                    order.len() >= start_len,
                    progress ==> order.len() > start_len,
                    !progress ==> placed@ == start_placed && order.len() == start_len,
                    !progress ==> forall|j: int| 0 <= j < i && !placed@[j] ==> stuck(e, placed@, j),
                decreases n - i,
            {
                proof {
                    assert forall|k: int| 0 <= k < deps@[i as int].len() implies has_key(
                        e,
                        #[trigger] deps@[i as int]@[k]@,
                    ) by {
                        assert(names_view(deps@[i as int]@)[k] == deps@[i as int]@[k]@);
                        assert(!undefined_at(e, i as int, k));
                    }
                }
                if !placed[i] {
                    let ready = self.all_placed(&deps[i], &placed);
                    if ready {
                        let ghost ov = names_view(order@);
                        let ghost pl = placed@;
                        let name = defs.key_at(i).dup();
                        order.push(name);
                        placed.set(i, true);
                        proof {
                            lemma_place(e, pl, ov, i as int, names_view(deps@[i as int]@));
                            assert(names_view(order@) =~= ov.push(e[i as int].0@));
                        }
                        progress = true;
                    } else {
                        proof {
                            assert(stuck(e, placed@, i as int)) by {
                                let ds = deps@[i as int]@;
                                let k = choose|k: int|
                                    0 <= k < ds.len() && !placed@[key_index(e, #[trigger] ds[k]@)];
                                assert(names_view(ds)[k] == ds[k]@);
                            }
                        }
                    }
                }
                i = i + 1;
            }
            if self.all_done(&placed) {
                proof {
                    lemma_complete(e, placed@, names_view(order@));
                }
                return Ok(order);
            }
            if !progress {
                proof {
                    let j = choose|j: int| 0 <= j < n && !placed@[j];
                    lemma_no_topological_order(e, placed@, j);
                }
                let cycle = self.describe_cycle(deps, &placed);
                return Err(ValidationError::Cycle { cycle });
            }
            proof {
                lemma_order_len(e, placed@, names_view(order@));
            }
        }
    }

    /// Whether every definition is placed.
    fn all_done(&self, placed: &Vec<bool>) -> (b: bool)
        ensures
            b == forall|j: int| 0 <= j < placed.len() ==> placed@[j],
    {
        let mut j: usize = 0;
        while j < placed.len()
            invariant
                j <= placed.len(),
                forall|k: int| 0 <= k < j ==> placed@[k],
            decreases placed.len() - j,
        {
            if !placed[j] {
                return false;
            }
            j = j + 1;
        }
        true
    }

    /// The definition that the first dependency in `ds` that is defined
    /// and not yet placed names, or the number of definitions.
    fn next_dependency(&self, ds: &Vec<Name>, placed: &Vec<bool>) -> (j: usize)
        requires
            self.wf(),
            placed.len() == self.defs().len(),
        ensures
            j == next_unplaced(self.defs(), names_view(ds@), placed@),
            j <= self.defs().len(),
    {
        let defs = self.definitions;
        let n = defs.len();
        let ghost e = self.defs();
        let ghost dsv = names_view(ds@);
        let mut next: usize = n;
        let mut k: usize = 0;
        assert(dsv.skip(0) =~= dsv);
        while k < ds.len() && next == n
            invariant
                k <= ds.len(),
                n == e.len(),
                e == self.defs(),
                e == defs.spec_entries(),
                defs.wf(),
                placed.len() == n,
                next <= n,
                dsv == names_view(ds@),
                next == n ==> next_unplaced(e, dsv, placed@) == next_unplaced(e, dsv.skip(k as int), placed@),
                next < n ==> next_unplaced(e, dsv, placed@) == next as int,
            decreases ds.len() - k,
        {
            proof {
                assert(dsv.skip(k as int)[0] == ds@[k as int]@);
                assert(dsv.skip(k as int).drop_first() =~= dsv.skip(k + 1));
            }
            match defs.position(&ds[k]) {
                Some(j) => {
                    proof {
                        assert(has_key(e, ds@[k as int]@));
                        let i = key_index(e, ds@[k as int]@);
                        assert(e[i].0@ == ds@[k as int]@);
                        assert(i == j as int);
                    }
                    if !placed[j] {
                        next = j;
                    }
                },
                None => {},
            }
            k = k + 1;
        }
        proof {
            if next == n {
                assert(dsv.skip(k as int).len() == 0);
            }
        }
        next
    }

    /// Text naming a cycle among the unplaced definitions, such as
    /// `A -> B -> A`: starting from the first unplaced definition, follow
    /// the first unplaced dependency until a name repeats.
    fn describe_cycle(&self, deps: &Vec<Vec<Name>>, placed: &Vec<bool>) -> (s: String)
        requires
            self.wf(),
            deps.len() == self.defs().len(),
            placed.len() == self.defs().len(),
        ensures
            s@ == cycle_text(
                self.defs(),
                cycle_walk(
                    self.defs(),
                    deps_view(deps@),
                    placed@,
                    seq![],
                    first_unplaced(placed@),
                    self.defs().len() as nat,
                ),
            ),
    {
        let defs = self.definitions;
        let n = defs.len();
        let ghost e = self.defs();
        let ghost dv = deps_view(deps@);
        let mut start: usize = 0;
        while start < n && placed[start]
            invariant
                start <= n,
                n == placed.len(),
                forall|j: int| 0 <= j < start ==> placed@[j],
            decreases n - start,
        {
            start = start + 1;
        }
        proof {
            lemma_first_unplaced(placed@, start as int);
        }
        let ghost w = cycle_walk(e, dv, placed@, seq![], start as int, n as nat);
        let mut path: Vec<usize> = Vec::new();
        let mut cur = start;
        let mut steps: usize = 0;
        let mut cycle_start: usize = 0;
        let mut closing: Option<usize> = None;
        assert(ints(path@) =~= seq![]);
        while steps < n && cur < n && closing.is_none()
            invariant
                n == placed.len(),
                n == e.len(),
                n == deps.len(),
                e == self.defs(),
                e == defs.spec_entries(),
                self.wf(),
                dv == deps_view(deps@),
                steps <= n,
                cur <= n,
                cycle_start <= path.len(),
                forall|k: int| 0 <= k < path.len() ==> path@[k] < n,
                closing is None ==> cycle_start == 0 && w == cycle_walk(
                    e,
                    dv,
                    placed@,
                    ints(path@),
                    cur as int,
                    (n - steps) as nat,
                ),
                closing matches Some(c) ==> c < n && w == (ints(path@), cycle_start as int, Some(c as int)),
            decreases n - steps,
        {
            match index_in(&path, cur) {
                Some(q) => {
                    proof {
                        assert(ints(path@)[q as int] == cur as int);
                        assert(ints(path@).contains(cur as int));
                    }
                    cycle_start = q;
                    closing = Some(cur);
                    steps = steps + 1;
                },
                None => {
                    let ghost before = ints(path@);
                    path.push(cur);
                    assert(ints(path@) =~= before.push(cur as int));
                    assert(dv[cur as int] == names_view(deps@[cur as int]@));
                    cur = self.next_dependency(&deps[cur], placed);
                    steps = steps + 1;
                },
            }
        }
        if closing.is_none() && cur < n {
            match index_in(&path, cur) {
                Some(q) => {
                    proof {
                        assert(ints(path@)[q as int] == cur as int);
                    }
                    cycle_start = q;
                    closing = Some(cur);
                },
                None => {},
            }
        }
        assert(w == (ints(path@), cycle_start as int, match closing {
            Some(c) => Some(c as int),
            None => None::<int>,
        }));
        let mut s = String::new();
        let mut p = cycle_start;
        while p < path.len()
            invariant
                cycle_start <= p <= path.len(),
                forall|k: int| 0 <= k < path.len() ==> path@[k] < n,
                n == e.len(),
                e == defs.spec_entries(),
                s@ == crate::text::join_with(
                    path_names(e, ints(path@).subrange(cycle_start as int, p as int)),
                    " -> "@,
                ),
            decreases path.len() - p,
        {
            let ghost ls = path_names(e, ints(path@).subrange(cycle_start as int, p as int));
            let name = defs.key_at(path[p]);
            assert(path_names(e, ints(path@).subrange(cycle_start as int, p + 1)) =~= ls.push(name@));
            assert(ls.push(name@).drop_last() =~= ls);
            if p > cycle_start {
                s.append(" -> ");
            }
            s.append(name.as_str());
            p = p + 1;
        }
        assert(ints(path@).subrange(cycle_start as int, path.len() as int) =~= ints(path@).skip(
            cycle_start as int,
        ));
        if let Some(c) = closing {
            if c < n {
                s.append(" -> ");
                s.append(defs.key_at(c).as_str());
            }
        }
        s
    }
}

/// The positions of a list, as integers.
pub open spec fn ints(v: Seq<usize>) -> Seq<int> {
    v.map_values(|u: usize| u as int)
}

/// The first position of `x` in `s`, or its length when `x` is absent.
pub open spec fn first_index(s: Seq<int>, x: int) -> int
    decreases s.len(),
{
    if s.len() == 0 || s[0] == x {
        0
    } else {
        1 + first_index(s.drop_first(), x)
    }
}

/// `p` is the first position of `x` in `s` when `x` is there at `p` and
/// nowhere before; the length when it is nowhere.
proof fn lemma_first_index(s: Seq<int>, x: int, p: int)
    requires
        0 <= p <= s.len(),
        forall|j: int| 0 <= j < p ==> s[j] != x,
        p < s.len() ==> s[p] == x,
    ensures
        first_index(s, x) == p,
    decreases p,
{
    if p > 0 {
        assert forall|j: int| 0 <= j < p - 1 implies s.drop_first()[j] != x by {
            assert(s.drop_first()[j] == s[j + 1]);
        }
        if p < s.len() {
            assert(s.drop_first()[p - 1] == s[p]);
        }
        lemma_first_index(s.drop_first(), x, p - 1);
    }
}

/// The first position of `x` in `v`, if `x` is there.
fn index_in(v: &Vec<usize>, x: usize) -> (r: Option<usize>)
    ensures
        match r {
            Some(q) => q < v.len() && v@[q as int] == x && q == first_index(ints(v@), x as int),
            None => !ints(v@).contains(x as int),
        },
{
    let mut p: usize = 0;
    while p < v.len()
        invariant
            p <= v.len(),
            forall|j: int| 0 <= j < p ==> v@[j] != x,
        decreases v.len() - p,
    {
        if v[p] == x {
            proof {
                lemma_first_index(ints(v@), x as int, p as int);
            }
            return Some(p);
        }
        p = p + 1;
    }
    proof {
        if ints(v@).contains(x as int) {
            let j = choose|j: int| 0 <= j < ints(v@).len() && ints(v@)[j] == x as int;
            assert(v@[j] == x);
        }
    }
    None
}

/// The first position of `placed` that is not placed, or its length.
pub open spec fn first_unplaced(placed: Seq<bool>) -> int
    decreases placed.len(),
{
    if placed.len() == 0 || !placed[0] {
        0
    } else {
        1 + first_unplaced(placed.drop_first())
    }
}

proof fn lemma_first_unplaced(s: Seq<bool>, p: int)
    requires
        0 <= p <= s.len(),
        forall|j: int| 0 <= j < p ==> s[j],
        p < s.len() ==> !s[p],
    ensures
        first_unplaced(s) == p,
    decreases p,
{
    if p > 0 {
        assert forall|j: int| 0 <= j < p - 1 implies s.drop_first()[j] by {
            assert(s.drop_first()[j] == s[j + 1]);
        }
        if p < s.len() {
            assert(s.drop_first()[p - 1] == s[p]);
        }
        lemma_first_unplaced(s.drop_first(), p - 1);
    }
}

/// The definition that the first dependency in `ds` that is defined and
/// not yet placed names, or the number of definitions when there is none.
pub open spec fn next_unplaced(e: Seq<(Name, Definition)>, ds: Seq<Seq<char>>, placed: Seq<bool>) -> int
    decreases ds.len(),
{
    if ds.len() == 0 {
        e.len() as int
    } else if has_key(e, ds[0]) && !placed[key_index(e, ds[0])] {
        key_index(e, ds[0])
    } else {
        next_unplaced(e, ds.drop_first(), placed)
    }
}

/// The end of a walk: the path, where the cycle starts in it, and the
/// definition that closes the cycle, when `cur` repeats a definition on
/// the path.
pub open spec fn walk_end(n: int, path: Seq<int>, cur: int) -> (Seq<int>, int, Option<int>) {
    if 0 <= cur < n && path.contains(cur) {
        (path, first_index(path, cur), Some(cur))
    } else {
        (path, 0, None)
    }
}

/// The walk from `cur` along the first unplaced dependencies, extending
/// `path`, for at most `fuel` more steps: it stops when a definition
/// repeats, when no unplaced dependency is left, or when the steps run
/// out.
pub open spec fn cycle_walk(
    e: Seq<(Name, Definition)>,
    deps: Seq<Seq<Seq<char>>>,
    placed: Seq<bool>,
    path: Seq<int>,
    cur: int,
    fuel: nat,
) -> (Seq<int>, int, Option<int>)
    decreases fuel,
{
    if fuel == 0 || !(0 <= cur < e.len()) {
        walk_end(e.len() as int, path, cur)
    } else if path.contains(cur) {
        (path, first_index(path, cur), Some(cur))
    } else {
        cycle_walk(e, deps, placed, path.push(cur), next_unplaced(e, deps[cur], placed), (fuel - 1) as nat)
    }
}

/// The names of the definitions at the positions `path`.
pub open spec fn path_names(e: Seq<(Name, Definition)>, path: Seq<int>) -> Seq<Seq<char>> {
    path.map_values(|i: int| e[i].0@)
}

/// The text of a walk's cycle: the names from where the cycle starts,
/// joined by ` -> `, then ` -> ` and the name that closes it.
pub open spec fn cycle_text(e: Seq<(Name, Definition)>, w: (Seq<int>, int, Option<int>)) -> Seq<char> {
    let (path, start, closing) = w;
    crate::text::join_with(path_names(e, path.skip(start)), " -> "@) + match closing {
        Some(c) => if 0 <= c < e.len() {
            " -> "@ + e[c].0@
        } else {
            Seq::empty()
        },
        None => Seq::empty(),
    }
}

/// The dependency names of every definition.
pub open spec fn deps_view(deps: Seq<Vec<Name>>) -> Seq<Seq<Seq<char>>> {
    deps.map_values(|d: Vec<Name>| names_view(d@))
}

/// The placement state: `placed[j]` exactly when definition `j`'s name
/// is in `ov`, which has no duplicates and lists each name after its
/// dependencies.
pub open spec fn order_inv(e: Seq<(Name, Definition)>, placed: Seq<bool>, ov: Seq<Seq<char>>) -> bool {
    &&& placed.len() == e.len()
    &&& forall|j: int| 0 <= j < e.len() ==> (#[trigger] placed[j] <==> ov.contains(e[j].0@))
    &&& ov.no_duplicates()
    &&& forall|x: Seq<char>| #[trigger] ov.contains(x) ==> has_key(e, x)
    &&& forall|p: int, k: int|
        0 <= p < ov.len() && 0 <= k < def_deps(lookup(e, ov[p])->0).len() ==> #[trigger] ov.take(
            p,
        ).contains(#[trigger] def_deps(lookup(e, ov[p])->0)[k])
}

/// Definition `j` has a dependency that is not placed.
pub open spec fn stuck(e: Seq<(Name, Definition)>, placed: Seq<bool>, j: int) -> bool {
    exists|k: int|
        0 <= k < def_deps(e[j].1).len() && !placed[key_index(e, #[trigger] def_deps(e[j].1)[k])]
}

proof fn lemma_keys_nodup(e: Seq<(Name, Definition)>)
    requires
        crate::label::keys_unique(e),
    ensures
        crate::label::entry_keys(e).no_duplicates(),
{
    let ks = crate::label::entry_keys(e);
    assert forall|i: int, j: int| 0 <= i < ks.len() && 0 <= j < ks.len() && i != j implies ks[i]
        != ks[j] by {
        assert(ks[i] == e[i].0@);
        assert(ks[j] == e[j].0@);
    }
}

proof fn lemma_key_index_of(e: Seq<(Name, Definition)>, j: int)
    requires
        crate::label::keys_unique(e),
        0 <= j < e.len(),
    ensures
        has_key(e, e[j].0@),
        key_index(e, e[j].0@) == j,
        lookup(e, e[j].0@) == Some(e[j].1),
{
    assert(has_key(e, e[j].0@));
    let ki = key_index(e, e[j].0@);
    assert(e[ki].0@ == e[j].0@);
}

proof fn lemma_place(
    e: Seq<(Name, Definition)>,
    pl: Seq<bool>,
    ov: Seq<Seq<char>>,
    i: int,
    ds: Seq<Seq<char>>,
)
    requires
        crate::label::keys_unique(e),
        all_refs_defined(e),
        order_inv(e, pl, ov),
        0 <= i < e.len(),
        !pl[i],
        ds == def_deps(e[i].1),
        forall|k: int| 0 <= k < ds.len() ==> pl[key_index(e, #[trigger] ds[k])],
    ensures
        order_inv(e, pl.update(i, true), ov.push(e[i].0@)),
{
    let x = e[i].0@;
    let nov = ov.push(x);
    let npl = pl.update(i, true);
    lemma_key_index_of(e, i);
    assert(!ov.contains(x));
    assert forall|j: int| 0 <= j < e.len() implies (#[trigger] npl[j] <==> nov.contains(e[j].0@)) by {
        if j == i {
            assert(nov[ov.len() as int] == x);
        } else {
            assert(e[j].0@ != x);
            if ov.contains(e[j].0@) {
                let q = choose|q: int| 0 <= q < ov.len() && ov[q] == e[j].0@;
                assert(nov[q] == e[j].0@);
            }
            if nov.contains(e[j].0@) {
                let q = choose|q: int| 0 <= q < nov.len() && nov[q] == e[j].0@;
                assert(q < ov.len());
                assert(ov[q] == e[j].0@);
            }
        }
    }
    assert forall|a: int, b: int| 0 <= a < nov.len() && 0 <= b < nov.len() && a != b implies nov[a]
        != nov[b] by {
        if a < ov.len() && b < ov.len() {
        } else if a == ov.len() {
            assert(ov.contains(nov[b]) || b == a);
        } else {
            assert(ov.contains(nov[a]));
        }
    }
    assert forall|y: Seq<char>| #[trigger] nov.contains(y) implies has_key(e, y) by {
        let q = choose|q: int| 0 <= q < nov.len() && nov[q] == y;
        if q < ov.len() {
            assert(ov[q] == y);
            assert(ov.contains(y));
        } else {
            assert(y == x);
        }
    }
    assert forall|p: int, k: int|
        0 <= p < nov.len() && 0 <= k < def_deps(lookup(e, nov[p])->0).len() implies #[trigger] nov.take(
        p,
    ).contains(#[trigger] def_deps(lookup(e, nov[p])->0)[k]) by {
        if p < ov.len() {
            assert(nov[p] == ov[p]);
            assert(nov.take(p) =~= ov.take(p));
        } else {
            assert(nov[p] == x);
            assert(nov.take(p) =~= ov);
            let d = ds[k];
            assert(!undefined_at(e, i, k));
            assert(has_key(e, d));
            let kj = key_index(e, d);
            assert(pl[kj]);
            assert(e[kj].0@ == d);
        }
    }
}

proof fn lemma_order_len(e: Seq<(Name, Definition)>, placed: Seq<bool>, ov: Seq<Seq<char>>)
    requires
        crate::label::keys_unique(e),
        order_inv(e, placed, ov),
    ensures
        ov.len() <= e.len(),
{
    let ks = crate::label::entry_keys(e);
    lemma_keys_nodup(e);
    assert forall|x: Seq<char>| ov.to_set().contains(x) implies ks.to_set().contains(x) by {
        assert(ov.contains(x));
        assert(has_key(e, x));
        let q = choose|q: int| 0 <= q < e.len() && (#[trigger] e[q]).0@ == x;
        assert(ks[q] == x);
    }
    ov.unique_seq_to_set();
    ks.unique_seq_to_set();
    vstd::set_lib::lemma_len_subset(ov.to_set(), ks.to_set());
}

proof fn lemma_complete(e: Seq<(Name, Definition)>, placed: Seq<bool>, ov: Seq<Seq<char>>)
    requires
        crate::label::keys_unique(e),
        order_inv(e, placed, ov),
        forall|j: int| 0 <= j < placed.len() ==> placed[j],
    ensures
        is_topological_order(e, ov),
{
    let ks = crate::label::entry_keys(e);
    lemma_keys_nodup(e);
    assert forall|x: Seq<char>| #[trigger] ov.contains(x) <==> has_key(e, x) by {
        if has_key(e, x) {
            let q = choose|q: int| 0 <= q < e.len() && (#[trigger] e[q]).0@ == x;
            assert(placed[q]);
        }
    }
    assert(ov.to_set() =~= ks.to_set()) by {
        assert forall|x: Seq<char>| ov.to_set().contains(x) <==> ks.to_set().contains(x) by {
            if ks.contains(x) {
                let q = choose|q: int| 0 <= q < ks.len() && ks[q] == x;
                assert(e[q].0@ == x);
            }
            if ov.contains(x) {
                assert(has_key(e, x));
                let q = choose|q: int| 0 <= q < e.len() && (#[trigger] e[q]).0@ == x;
                assert(ks[q] == x);
            }
        }
    }
    ov.unique_seq_to_set();
    ks.unique_seq_to_set();
}

proof fn lemma_no_topological_order(e: Seq<(Name, Definition)>, placed: Seq<bool>, j0: int)
    requires
        crate::label::keys_unique(e),
        all_refs_defined(e),
        placed.len() == e.len(),
        0 <= j0 < e.len(),
        !placed[j0],
        forall|j: int| 0 <= j < e.len() && !placed[j] ==> stuck(e, placed, j),
    ensures
        !exists|ord: Seq<Seq<char>>| is_topological_order(e, ord),
{
    if exists|ord: Seq<Seq<char>>| is_topological_order(e, ord) {
        let ord = choose|ord: Seq<Seq<char>>| is_topological_order(e, ord);
        lemma_prefix_placed(e, placed, ord, ord.len() as int);
        let x = e[j0].0@;
        lemma_key_index_of(e, j0);
        assert(ord.contains(x));
        let q = choose|q: int| 0 <= q < ord.len() && ord[q] == x;
        assert(placed[key_index(e, ord[q])]);
    }
}

proof fn lemma_prefix_placed(e: Seq<(Name, Definition)>, placed: Seq<bool>, ord: Seq<Seq<char>>, p: int)
    requires
        crate::label::keys_unique(e),
        all_refs_defined(e),
        placed.len() == e.len(),
        forall|j: int| 0 <= j < e.len() && !placed[j] ==> stuck(e, placed, j),
        is_topological_order(e, ord),
        0 <= p <= ord.len(),
    ensures
        forall|q: int| 0 <= q < p ==> placed[key_index(e, #[trigger] ord[q])],
    decreases p,
{
    if p > 0 {
        lemma_prefix_placed(e, placed, ord, p - 1);
        let x = ord[p - 1];
        assert(ord.contains(x));
        assert(has_key(e, x));
        let j = key_index(e, x);
        assert(e[j].0@ == x);
        lemma_key_index_of(e, j);
        assert(lookup(e, x) == Some(e[j].1));
        if !placed[j] {
            assert(stuck(e, placed, j));
            let k = choose|k: int|
                0 <= k < def_deps(e[j].1).len() && !placed[key_index(e, #[trigger] def_deps(e[j].1)[k])];
            let d = def_deps(e[j].1)[k];
            assert(def_deps(lookup(e, ord[p - 1])->0)[k] == d);
            assert(ord.take(p - 1).contains(def_deps(lookup(e, ord[p - 1])->0)[k]));
            let q = choose|q: int| 0 <= q < p - 1 && #[trigger] ord.take(p - 1)[q] == d;
            assert(ord[q] == d);
        }
    }
}

} // verus!
