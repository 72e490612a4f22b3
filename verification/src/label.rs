//! Validated text labels and the small ordered maps keyed by them.
//!
//! File set names, perspective names, check names and worker ids are all
//! newtypes over `String`. Their contracts speak of the character
//! sequence they hold; [`LabelMap`] keeps its entries in increasing
//! order of that character sequence, each key once, as a sorted map
//! would.

use vstd::prelude::*;

use crate::sort::{lemma_text_lt_irreflexive, lemma_text_lt_total, lemma_text_lt_transitive, text_less, text_lt};

verus! {

/// A newtype over text whose identity is its character sequence.
pub trait Label: View<V = Seq<char>> + Sized {
    /// Whether two labels hold the same text.
    fn same(&self, other: &Self) -> (r: bool)
        ensures
            r == (self@ == other@);

    /// A copy holding the same text.
    fn dup(&self) -> (r: Self)
        ensures
            r@ == self@;

    /// The text, as a string slice.
    fn text(&self) -> (r: &str)
        ensures
            r@ == self@;
}

/// The texts of a sequence of labels.
pub open spec fn labels_view<K: Label>(s: Seq<K>) -> Seq<Seq<char>> {
    s.map_values(|k: K| k@)
}

/// The keys of a sequence of entries, as character sequences.
pub open spec fn entry_keys<K: Label, V>(entries: Seq<(K, V)>) -> Seq<Seq<char>> {
    entries.map_values(|e: (K, V)| e.0@)
}

/// Whether `k` is the key of some entry.
pub open spec fn has_key<K: Label, V>(entries: Seq<(K, V)>, k: Seq<char>) -> bool {
    exists|i: int| 0 <= i < entries.len() && (#[trigger] entries[i]).0@ == k
}

/// Whether the keys of `entries` are pairwise distinct.
pub open spec fn keys_unique<K: Label, V>(entries: Seq<(K, V)>) -> bool {
    forall|i: int, j: int|
        0 <= i < entries.len() && 0 <= j < entries.len() && i != j ==> (#[trigger] entries[i]).0@
            != (#[trigger] entries[j]).0@
}

/// Whether the keys of `entries` are in strictly increasing text order.
pub open spec fn keys_ascending<K: Label, V>(entries: Seq<(K, V)>) -> bool {
    forall|i: int, j: int|
        0 <= i < j < entries.len() ==> text_lt((#[trigger] entries[i]).0@, (#[trigger] entries[j]).0@)
}

/// Whether every key of `entries` sorts before `k`.
pub open spec fn all_keys_before<K: Label, V>(entries: Seq<(K, V)>, k: Seq<char>) -> bool {
    forall|i: int| 0 <= i < entries.len() ==> text_lt((#[trigger] entries[i]).0@, k)
}

/// Whether `after` is `before` with `e` added at the position that keeps
/// the keys in order: after every key sorting before `e`'s, before every
/// key sorting after it.
pub open spec fn inserted_in_order<K: Label, V>(
    before: Seq<(K, V)>,
    e: (K, V),
    after: Seq<(K, V)>,
) -> bool {
    exists|p: int|
        0 <= p <= before.len() && after == before.insert(p, e) && (forall|i: int|
            0 <= i < p ==> text_lt((#[trigger] before[i]).0@, e.0@)) && (forall|i: int|
            p <= i < before.len() ==> text_lt(e.0@, (#[trigger] before[i]).0@))
}

/// Keys in strictly increasing order are pairwise distinct.
pub proof fn lemma_ascending_unique<K: Label, V>(entries: Seq<(K, V)>)
    requires
        keys_ascending(entries),
    ensures
        keys_unique(entries),
{
    assert forall|i: int, j: int|
        0 <= i < entries.len() && 0 <= j < entries.len() && i != j implies (#[trigger] entries[i]).0@
        != (#[trigger] entries[j]).0@ by {
        if i < j {
            lemma_text_lt_irreflexive(entries[i].0@);
        } else {
            lemma_text_lt_irreflexive(entries[j].0@);
        }
    }
}

/// The index of key `k` (meaningful when `has_key(entries, k)`).
pub open spec fn key_index<K: Label, V>(entries: Seq<(K, V)>, k: Seq<char>) -> int {
    choose|i: int| 0 <= i < entries.len() && (#[trigger] entries[i]).0@ == k
}

/// The value stored under `k`, if any.
pub open spec fn lookup<K: Label, V>(entries: Seq<(K, V)>, k: Seq<char>) -> Option<V> {
    if has_key(entries, k) {
        Some(entries[key_index(entries, k)].1)
    } else {
        None
    }
}

/// A map from labels to values, its entries in increasing key order.
#[derive(Debug)]
pub struct LabelMap<K, V> {
    entries: Vec<(K, V)>,
}

impl<K: Label, V> LabelMap<K, V> {
    /// The entries, in increasing key order.
    pub closed spec fn spec_entries(&self) -> Seq<(K, V)> {
        self.entries@
    }

    /// Well-formedness: keys are in strictly increasing order, so pairwise
    /// distinct.
    pub open spec fn wf(&self) -> bool {
        &&& keys_unique(self.spec_entries())
        &&& keys_ascending(self.spec_entries())
    }

    /// The value stored under `k`, if any.
    pub open spec fn spec_get(&self, k: Seq<char>) -> Option<V> {
        lookup(self.spec_entries(), k)
    }

    /// An empty map.
    pub fn new() -> (m: Self)
        ensures
            m.wf(),
            m.spec_entries() == Seq::<(K, V)>::empty(),
    {
        LabelMap { entries: Vec::new() }
    }

    /// The number of entries.
    pub fn len(&self) -> (n: usize)
        ensures
            n == self.spec_entries().len(),
    {
        self.entries.len()
    }

    /// Whether there are no entries.
    pub fn is_empty(&self) -> (b: bool)
        ensures
            b == (self.spec_entries().len() == 0),
    {
        self.entries.len() == 0
    }

    /// The key of entry `i`.
    pub fn key_at(&self, i: usize) -> (k: &K)
        requires
            i < self.spec_entries().len(),
        ensures
            *k == self.spec_entries()[i as int].0,
    {
        &self.entries[i].0
    }

    /// The value of entry `i`.
    pub fn value_at(&self, i: usize) -> (v: &V)
        requires
            i < self.spec_entries().len(),
        ensures
            *v == self.spec_entries()[i as int].1,
    {
        &self.entries[i].1
    }

    /// The position of the entry whose key holds the same text as `k`.
    pub fn position(&self, k: &K) -> (r: Option<usize>)
        ensures
            match r {
                Some(i) => i < self.spec_entries().len() && self.spec_entries()[i as int].0@ == k@,
                None => !has_key(self.spec_entries(), k@),
            },
    {
        let mut i: usize = 0;
        while i < self.entries.len()
            invariant
                i <= self.entries.len(),
                forall|j: int| 0 <= j < i ==> (#[trigger] self.entries@[j]).0@ != k@,
            decreases self.entries.len() - i,
        {
            if self.entries[i].0.same(k) {
                return Some(i);
            }
            i = i + 1;
        }
        None
    }

    /// Whether some entry has the same key text as `k`.
    pub fn contains_key(&self, k: &K) -> (b: bool)
        ensures
            b == has_key(self.spec_entries(), k@),
    {
        self.position(k).is_some()
    }

    /// The value stored under the key text of `k`.
    pub fn get(&self, k: &K) -> (r: Option<&V>)
        requires
            self.wf(),
        ensures
            match r {
                Some(v) => self.spec_get(k@) == Some(*v),
                None => self.spec_get(k@) is None,
            },
    {
        match self.position(k) {
            Some(i) => {
                proof {
                    let e = self.spec_entries();
                    let j = key_index(e, k@);
                    assert(has_key(e, k@));
                    assert(e[j].0@ == k@);
                    assert(j == i as int);
                }
                Some(&self.entries[i].1)
            },
            None => None,
        }
    }

    /// Insert `v` under `k`: replacing the entry with the same key text in
    /// place, or adding a new entry where its key keeps the order.
    pub fn insert(&mut self, k: K, v: V)
        requires
            old(self).wf(),
        ensures
            final(self).wf(),
            has_key(old(self).spec_entries(), k@) ==> final(self).spec_entries()
                == old(self).spec_entries().update(key_index(old(self).spec_entries(), k@), (k, v)),
            !has_key(old(self).spec_entries(), k@) ==> inserted_in_order(
                old(self).spec_entries(),
                (k, v),
                final(self).spec_entries(),
            ),
            !has_key(old(self).spec_entries(), k@) && all_keys_before(old(self).spec_entries(), k@)
                ==> final(self).spec_entries() == old(self).spec_entries().push((k, v)),
    {
        let ghost e0 = self.spec_entries();
        match self.position(&k) {
            Some(i) => {
                proof {
                    assert(e0[i as int].0@ == k@);
                    assert(has_key(e0, k@));
                    assert(key_index(e0, k@) == i as int);
                }
                self.entries.set(i, (k, v));
                proof {
                    let e = self.spec_entries();
                    assert forall|a: int, b: int|
                        0 <= a < e.len() && 0 <= b < e.len() && a != b implies (#[trigger] e[a]).0@
                        != (#[trigger] e[b]).0@ by {
                        assert(e[a].0@ == e0[a].0@);
                        assert(e[b].0@ == e0[b].0@);
                    }
                    assert forall|a: int, b: int| 0 <= a < b < e.len() implies text_lt(
                        (#[trigger] e[a]).0@,
                        (#[trigger] e[b]).0@,
                    ) by {
                        assert(e[a].0@ == e0[a].0@);
                        assert(e[b].0@ == e0[b].0@);
                    }
                }
            },
            None => {
                let mut p: usize = 0;
                while p < self.entries.len() && text_less(self.entries[p].0.text(), k.text())
                    invariant
                        self.spec_entries() == e0,
                        p <= e0.len(),
                        forall|q: int| 0 <= q < p ==> text_lt((#[trigger] e0[q]).0@, k@),
                    decreases e0.len() - p,
                {
                    p = p + 1;
                }
                proof {
                    if p < e0.len() {
                        assert(!text_lt(e0[p as int].0@, k@));
                        assert(e0[p as int].0@ != k@);
                        lemma_text_lt_total(e0[p as int].0@, k@);
                    }
                    assert forall|q: int| p <= q < e0.len() implies text_lt(k@, (#[trigger] e0[q]).0@) by {
                        if q > p {
                            assert(text_lt(e0[p as int].0@, e0[q].0@));
                            lemma_text_lt_transitive(k@, e0[p as int].0@, e0[q].0@);
                        }
                    }
                }
                self.entries.insert(p, (k, v));
                proof {
                    let e = self.spec_entries();
                    let x = (k, v);
                    assert(e == e0.insert(p as int, x));
                    assert forall|a: int, b: int| 0 <= a < b < e.len() implies text_lt(
                        (#[trigger] e[a]).0@,
                        (#[trigger] e[b]).0@,
                    ) by {
                        if b < p {
                            assert(e[a] == e0[a] && e[b] == e0[b]);
                        } else if b == p {
                            assert(e[a] == e0[a]);
                        } else if a == p {
                            assert(e[b] == e0[b - 1]);
                        } else if a < p {
                            assert(e[a] == e0[a] && e[b] == e0[b - 1]);
                            lemma_text_lt_transitive(e0[a].0@, k@, e0[b - 1].0@);
                        } else {
                            assert(e[a] == e0[a - 1] && e[b] == e0[b - 1]);
                        }
                    }
                    lemma_ascending_unique(e);
                    assert(inserted_in_order(e0, x, e));
                    if all_keys_before(e0, k@) {
                        if p < e0.len() {
                            assert(text_lt(e0[p as int].0@, k@));
                            assert(text_lt(k@, e0[p as int].0@));
                            lemma_text_lt_transitive(k@, e0[p as int].0@, k@);
                            lemma_text_lt_irreflexive(k@);
                        }
                        assert(e =~= e0.push(x));
                    }
                }
            },
        }
    }
}

} // verus!
