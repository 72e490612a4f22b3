//! Finite sets of repository-relative file paths.
//!
//! A [`PathSet`] holds each path at most once, in path order: component
//! by component, the order `Path` gives. Its contracts speak of the
//! mathematical set of character sequences it contains, and of that
//! order.

use vstd::prelude::*;

use crate::sort::{lemma_text_lt_irreflexive, lemma_text_lt_total, lemma_text_lt_transitive, text_less, text_lt};
use crate::text::{chars_of, push_char};

verus! {

/// The character a path is ordered by: the separator `/` ranks below
/// every other character (NUL, which no path holds, takes its rank).
pub open spec fn path_rank(c: char) -> char {
    if c == '/' {
        '\0'
    } else if c == '\0' {
        '/'
    } else {
        c
    }
}

/// The text a path is ordered by.
pub open spec fn path_key(p: Seq<char>) -> Seq<char> {
    p.map_values(|c: char| path_rank(c))
}

/// Whether path `a` sorts strictly before path `b`: comparing names
/// component by component, a component before its extensions (`a/b`
/// before `a.rs`).
pub open spec fn path_lt(a: Seq<char>, b: Seq<char>) -> bool {
    text_lt(path_key(a), path_key(b))
}

/// Whether the paths of `s` are in strictly increasing path order.
pub open spec fn path_sorted(s: Seq<Seq<char>>) -> bool {
    forall|i: int, j: int| 0 <= i < j < s.len() ==> path_lt(#[trigger] s[i], #[trigger] s[j])
}

/// Distinct paths have distinct keys.
proof fn lemma_path_key_injective(a: Seq<char>, b: Seq<char>)
    requires
        path_key(a) == path_key(b),
    ensures
        a == b,
{
    assert(a.len() == path_key(a).len());
    assert forall|i: int| 0 <= i < a.len() implies a[i] == b[i] by {
        assert(path_key(a)[i] == path_rank(a[i]));
        assert(path_key(b)[i] == path_rank(b[i]));
    }
    assert(a =~= b);
}

/// No path sorts before itself.
pub proof fn lemma_path_lt_irreflexive(a: Seq<char>)
    ensures
        !path_lt(a, a),
{
    lemma_text_lt_irreflexive(path_key(a));
}

/// The path order is transitive.
pub proof fn lemma_path_lt_transitive(a: Seq<char>, b: Seq<char>, c: Seq<char>)
    requires
        path_lt(a, b),
        path_lt(b, c),
    ensures
        path_lt(a, c),
{
    lemma_text_lt_transitive(path_key(a), path_key(b), path_key(c));
}

/// Any two paths are equal or ordered one way.
pub proof fn lemma_path_lt_total(a: Seq<char>, b: Seq<char>)
    ensures
        a == b || path_lt(a, b) || path_lt(b, a),
{
    lemma_text_lt_total(path_key(a), path_key(b));
    if path_key(a) == path_key(b) {
        lemma_path_key_injective(a, b);
    }
}

/// The text a path is ordered by, as a string.
fn path_key_text(p: &str) -> (r: String)
    ensures
        r@ == path_key(p@),
{
    let cs = chars_of(p);
    let mut r = String::new();
    let mut i: usize = 0;
    while i < cs.len()
        invariant
            cs@ == p@,
            i <= cs.len(),
            r@ == path_key(p@.take(i as int)),
        decreases cs.len() - i,
    {
        let c = cs[i];
        let k = if c == '/' {
            '\0'
        } else if c == '\0' {
            '/'
        } else {
            c
        };
        push_char(&mut r, k);
        assert(r@ =~= path_key(p@.take(i + 1)));
        i = i + 1;
    }
    assert(p@.take(cs.len() as int) =~= p@);
    r
}

/// Whether path `a` sorts strictly before path `b`.
pub fn path_less(a: &str, b: &str) -> (r: bool)
    ensures
        r == path_lt(a@, b@),
{
    let ka = path_key_text(a);
    let kb = path_key_text(b);
    text_less(ka.as_str(), kb.as_str())
}

/// A strictly increasing sequence holds each path once.
proof fn lemma_sorted_no_duplicates(s: Seq<Seq<char>>)
    requires
        path_sorted(s),
    ensures
        s.no_duplicates(),
{
    assert forall|i: int, j: int| 0 <= i < s.len() && 0 <= j < s.len() && i != j implies s[i] != s[j] by {
        if i < j {
            assert(path_lt(s[i], s[j]));
        } else {
            assert(path_lt(s[j], s[i]));
        }
        lemma_path_lt_irreflexive(s[i]);
    }
}

/// The character sequences of a list of strings.
pub open spec fn strings_view(v: Seq<String>) -> Seq<Seq<char>> {
    v.map_values(|s: String| s@)
}

/// A finite set of file paths without duplicates.
#[derive(Debug)]
pub struct PathSet {
    paths: Vec<String>,
}

impl Clone for PathSet {
    /// A copy storing the same paths in the same order.
    fn clone(&self) -> (r: Self)
        ensures
            r.items() == self.items(),
    {
        let mut paths: Vec<String> = Vec::new();
        let mut i: usize = 0;
        while i < self.paths.len()
            invariant
                i <= self.paths.len(),
                paths@ == self.paths@.take(i as int),
            decreases self.paths.len() - i,
        {
            let c = self.paths[i].clone();
            paths.push(c);
            assert(paths@ =~= self.paths@.take(i + 1));
            i = i + 1;
        }
        assert(paths@ =~= self.paths@);
        PathSet { paths }
    }
}

impl PathSet {
    /// The stored paths, in the order they are stored.
    pub closed spec fn items(&self) -> Seq<Seq<char>> {
        strings_view(self.paths@)
    }

    /// Well-formedness: the paths are stored in strictly increasing path
    /// order, so none twice.
    pub open spec fn wf(&self) -> bool {
        &&& self.items().no_duplicates()
        &&& path_sorted(self.items())
    }

    /// The set of stored paths.
    pub open spec fn set(&self) -> Set<Seq<char>> {
        self.items().to_set()
    }

    /// An empty set.
    pub fn new() -> (s: Self)
        ensures
            s.wf(),
            s.items() == Seq::<Seq<char>>::empty(),
            s.set() == Set::<Seq<char>>::empty(),
    {
        let s = PathSet { paths: Vec::new() };
        assert(s.set() =~= Set::<Seq<char>>::empty());
        s
    }

    /// Whether `p` is stored.
    pub fn contains(&self, p: &String) -> (b: bool)
        ensures
            b == self.set().contains(p@),
            b == self.items().contains(p@),
    {
        let mut i: usize = 0;
        while i < self.paths.len()
            invariant
                i <= self.paths.len(),
                forall|j: int| 0 <= j < i ==> self.items()[j] != p@,
            decreases self.paths.len() - i,
        {
            if self.paths[i] == *p {
                assert(self.items()[i as int] == p@);
                return true;
            }
            i = i + 1;
        }
        proof {
            if self.items().contains(p@) {
                let j = choose|j: int| 0 <= j < self.items().len() && #[trigger] self.items()[j] == p@;
                assert(self.items()[j] == p@);
            }
        }
        false
    }

    /// Add `p` in its place in path order if it is not yet stored;
    /// returns whether it was added.
    pub fn insert(&mut self, p: String) -> (added: bool)
        requires
            old(self).wf(),
        ensures
            final(self).wf(),
            added == !old(self).set().contains(p@),
            final(self).set() == old(self).set().insert(p@),
            !added ==> final(self).items() == old(self).items(),
    {
        let ghost before = self.items();
        let mut i: usize = 0;
        while i < self.paths.len() && path_less(self.paths[i].as_str(), p.as_str())
            invariant
                i <= self.paths.len(),
                before == self.items(),
                forall|j: int| 0 <= j < i ==> path_lt(#[trigger] before[j], p@),
            decreases self.paths.len() - i,
        {
            assert(before[i as int] == self.paths@[i as int]@);
            i = i + 1;
        }
        if i < self.paths.len() && self.paths[i] == p {
            assert(before[i as int] == p@);
            assert(self.set() =~= self.set().insert(p@));
            return false;
        }
        proof {
            if i < before.len() {
                assert(before[i as int] == self.paths@[i as int]@);
                assert(!path_lt(before[i as int], p@));
                lemma_path_lt_total(before[i as int], p@);
                assert(path_lt(p@, before[i as int]));
            }
            assert(!before.contains(p@)) by {
                if before.contains(p@) {
                    let k = choose|k: int| 0 <= k < before.len() && before[k] == p@;
                    if k < i {
                        lemma_path_lt_irreflexive(p@);
                    } else if k == i {
                        lemma_path_lt_irreflexive(p@);
                    } else {
                        assert(path_lt(before[i as int], before[k]));
                        lemma_path_lt_transitive(p@, before[i as int], before[k]);
                        lemma_path_lt_irreflexive(p@);
                    }
                }
            }
        }
        self.paths.insert(i, p);
        let ghost after = self.items();
        proof {
            assert(after =~= before.insert(i as int, p@));
            assert(path_sorted(after)) by {
                assert forall|a: int, b: int| 0 <= a < b < after.len() implies path_lt(
                    #[trigger] after[a],
                    #[trigger] after[b],
                ) by {
                    if b < i {
                        assert(after[a] == before[a] && after[b] == before[b]);
                    } else if b == i {
                        assert(after[a] == before[a]);
                    } else if a == i {
                        assert(after[b] == before[b - 1]);
                        if b - 1 > i {
                            lemma_path_lt_transitive(p@, before[i as int], before[b - 1]);
                        }
                    } else if a < i {
                        assert(after[a] == before[a] && after[b] == before[b - 1]);
                        if b - 1 > i {
                            lemma_path_lt_transitive(before[a], p@, before[i as int]);
                            lemma_path_lt_transitive(before[a], before[i as int], before[b - 1]);
                        } else {
                            lemma_path_lt_transitive(before[a], p@, before[i as int]);
                        }
                    } else {
                        assert(after[a] == before[a - 1] && after[b] == before[b - 1]);
                    }
                }
            }
            lemma_sorted_no_duplicates(after);
            assert(after.to_set() =~= before.to_set().insert(p@)) by {
                assert forall|x: Seq<char>| after.contains(x) <==> (before.contains(x) || x == p@) by {
                    if after.contains(x) {
                        let k = choose|k: int| 0 <= k < after.len() && after[k] == x;
                        if k < i {
                            assert(before[k] == x);
                        } else if k > i {
                            assert(before[k - 1] == x);
                        }
                    }
                    if before.contains(x) {
                        let k = choose|k: int| 0 <= k < before.len() && before[k] == x;
                        if k < i {
                            assert(after[k] == x);
                        } else {
                            assert(after[k + 1] == x);
                        }
                    }
                    if x == p@ {
                        assert(after[i as int] == x);
                    }
                }
            }
        }
        true
    }

    /// The number of stored paths.
    pub fn count(&self) -> (n: usize)
        ensures
            n == self.items().len(),
    {
        self.paths.len()
    }

    /// The number of paths.
    pub fn len(&self) -> (n: usize)
        requires
            self.wf(),
        ensures
            n == self.set().len(),
            n == self.items().len(),
    {
        proof {
            self.items().unique_seq_to_set();
        }
        self.paths.len()
    }

    /// Whether no path is stored.
    pub fn is_empty(&self) -> (b: bool)
        ensures
            b == (self.set() == Set::<Seq<char>>::empty()),
    {
        proof {
            if self.items().len() > 0 {
                assert(self.set().contains(self.items()[0]));
            } else {
                assert(self.set() =~= Set::<Seq<char>>::empty());
            }
        }
        self.paths.len() == 0
    }

    /// The stored paths, in path order.
    pub fn paths(&self) -> (v: &Vec<String>)
        ensures
            strings_view(v@) == self.items(),
    {
        &self.paths
    }

    /// A copy of the stored paths, in path order.
    pub fn to_vec(&self) -> (v: Vec<String>)
        ensures
            strings_view(v@) == self.items(),
    {
        let v = self.paths.clone();
        assert(v@ =~= self.paths@) by {
            assert forall|q: int| 0 <= q < v.len() implies v@[q] == self.paths@[q] by {
                assert(cloned::<String>(self.paths@[q], v@[q]));
            }
        }
        v
    }

    /// The path stored at position `i`.
    pub fn path_at(&self, i: usize) -> (p: &String)
        requires
            i < self.items().len(),
        ensures
            p@ == self.items()[i as int],
    {
        &self.paths[i]
    }

    /// A set holding the given paths, each once.
    pub fn from_paths(v: &Vec<String>) -> (s: Self)
        ensures
            s.wf(),
            s.set() == strings_view(v@).to_set(),
    {
        let mut s = PathSet::new();
        let mut i: usize = 0;
        while i < v.len()
            invariant
                i <= v.len(),
                s.wf(),
                s.set() == strings_view(v@.take(i as int)).to_set(),
            decreases v.len() - i,
        {
            s.insert(v[i].clone());
            proof {
                assert(strings_view(v@.take(i + 1)) =~= strings_view(v@.take(i as int)).push(
                    v@[i as int]@,
                ));
                strings_view(v@.take(i as int)).lemma_push_to_set_commute(v@[i as int]@);
            }
            i = i + 1;
        }
        assert(v@.take(v.len() as int) =~= v@);
        s
    }

    /// Paths in either set.
    pub fn union(&self, other: &PathSet) -> (r: PathSet)
        requires
            self.wf(),
        ensures
            r.wf(),
            r.set() == self.set().union(other.set()),
    {
        let mut r = self.clone();
        assert(r.items() == self.items());
        let mut i: usize = 0;
        while i < other.paths.len()
            invariant
                i <= other.paths.len(),
                r.wf(),
                r.set() == self.set().union(other.items().take(i as int).to_set()),
            decreases other.paths.len() - i,
        {
            r.insert(other.paths[i].clone());
            proof {
                assert(other.items().take(i + 1) =~= other.items().take(i as int).push(
                    other.items()[i as int],
                ));
                other.items().take(i as int).lemma_push_to_set_commute(other.items()[i as int]);
            }
            i = i + 1;
        }
        assert(other.items().take(other.paths.len() as int) =~= other.items());
        assert(r.set() =~= self.set().union(other.set()));
        r
    }

    /// This set's paths that are also in `other`.
    pub fn intersection(&self, other: &PathSet) -> (r: PathSet)
        requires
            self.wf(),
        ensures
            r.wf(),
            r.set() == self.set().intersect(other.set()),
    {
        self.filter_by(other, true)
    }

    /// This set's paths that are not in `other`.
    pub fn difference(&self, other: &PathSet) -> (r: PathSet)
        requires
            self.wf(),
        ensures
            r.wf(),
            r.set() == self.set().difference(other.set()),
    {
        self.filter_by(other, false)
    }

    /// This set's paths whose membership in `other` equals `keep`.
    fn filter_by(&self, other: &PathSet, keep: bool) -> (r: PathSet)
        requires
            self.wf(),
        ensures
            r.wf(),
            keep ==> r.set() == self.set().intersect(other.set()),
            !keep ==> r.set() == self.set().difference(other.set()),
    {
        let mut r = PathSet::new();
        let mut i: usize = 0;
        while i < self.paths.len()
            invariant
                i <= self.paths.len(),
                r.wf(),
                forall|x: Seq<char>|
                    r.set().contains(x) <==> (self.items().take(i as int).contains(x)
                        && (other.set().contains(x) == keep)),
            decreases self.paths.len() - i,
        {
            let p = &self.paths[i];
            let inside = other.contains(p);
            if inside == keep {
                r.insert(p.clone());
            }
            proof {
                assert(self.items().take(i + 1) =~= self.items().take(i as int).push(
                    self.items()[i as int],
                ));
                assert forall|x: Seq<char>|
                    self.items().take(i + 1).contains(x) <==> (self.items().take(i as int).contains(x)
                        || x == self.items()[i as int]) by {
                    if self.items().take(i + 1).contains(x) {
                        let j = choose|j: int| 0 <= j < i + 1 && #[trigger] self.items().take(i + 1)[j] == x;
                        if j < i {
                            assert(self.items().take(i as int)[j] == x);
                        }
                    }
                    if self.items().take(i as int).contains(x) {
                        let j = choose|j: int| 0 <= j < i && #[trigger] self.items().take(i as int)[j] == x;
                        assert(self.items().take(i + 1)[j] == x);
                    }
                    if x == self.items()[i as int] {
                        assert(self.items().take(i + 1)[i as int] == x);
                    }
                }
            }
            i = i + 1;
        }
        assert(self.items().take(self.paths.len() as int) =~= self.items());
        proof {
            if keep {
                assert(r.set() =~= self.set().intersect(other.set()));
            } else {
                assert(r.set() =~= self.set().difference(other.set()));
            }
        }
        r
    }

    /// Whether every path of `other` is in this set.
    pub fn is_superset(&self, other: &PathSet) -> (b: bool)
        ensures
            b == other.set().subset_of(self.set()),
    {
        let mut i: usize = 0;
        while i < other.paths.len()
            invariant
                i <= other.paths.len(),
                forall|j: int| 0 <= j < i ==> self.set().contains(#[trigger] other.items()[j]),
            decreases other.paths.len() - i,
        {
            if !self.contains(&other.paths[i]) {
                assert(other.set().contains(other.items()[i as int]));
                return false;
            }
            i = i + 1;
        }
        assert forall|x: Seq<char>| other.set().contains(x) implies self.set().contains(x) by {
            let j = choose|j: int| 0 <= j < other.items().len() && #[trigger] other.items()[j] == x;
        }
        true
    }
}

} // verus!
