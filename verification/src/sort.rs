//! Lexicographic order on text, and a stable sort of values by a text
//! key: the order `String`'s `Ord` gives, since comparing characters by
//! code point compares their UTF-8 encodings byte by byte.

use vstd::prelude::*;

use crate::text::chars_of;

verus! {

/// Whether `a` sorts strictly before `b`: at the first differing
/// position `a` has the smaller character, or `a` is a proper prefix.
pub open spec fn text_lt(a: Seq<char>, b: Seq<char>) -> bool
    decreases a.len(),
{
    if b.len() == 0 {
        false
    } else if a.len() == 0 {
        true
    } else if a[0] != b[0] {
        a[0] < b[0]
    } else {
        text_lt(a.drop_first(), b.drop_first())
    }
}

/// Whether `a` sorts before or equal to `b`.
pub open spec fn text_le(a: Seq<char>, b: Seq<char>) -> bool {
    a == b || text_lt(a, b)
}

/// No text sorts before itself.
pub proof fn lemma_text_lt_irreflexive(a: Seq<char>)
    ensures
        !text_lt(a, a),
    decreases a.len(),
{
    if a.len() > 0 {
        lemma_text_lt_irreflexive(a.drop_first());
    }
}

/// The order is transitive.
pub proof fn lemma_text_lt_transitive(a: Seq<char>, b: Seq<char>, c: Seq<char>)
    requires
        text_lt(a, b),
        text_lt(b, c),
    ensures
        text_lt(a, c),
    decreases a.len(),
{
    if a.len() > 0 && b.len() > 0 && c.len() > 0 && a[0] == b[0] && b[0] == c[0] {
        lemma_text_lt_transitive(a.drop_first(), b.drop_first(), c.drop_first());
    }
}

/// Any two texts are equal or ordered one way.
pub proof fn lemma_text_lt_total(a: Seq<char>, b: Seq<char>)
    ensures
        a == b || text_lt(a, b) || text_lt(b, a),
    decreases a.len(),
{
    if a.len() == 0 && b.len() == 0 {
        assert(a =~= b);
    } else if a.len() > 0 && b.len() > 0 && a[0] == b[0] {
        lemma_text_lt_total(a.drop_first(), b.drop_first());
        if a.drop_first() == b.drop_first() {
            assert(a =~= seq![a[0]] + a.drop_first());
            assert(b =~= seq![b[0]] + b.drop_first());
        }
    } else if a.len() > 0 && b.len() > 0 {
        assert(a[0] != b[0]);
    }
}

proof fn lemma_text_lt_skip(a: Seq<char>, b: Seq<char>, i: int)
    requires
        0 <= i <= a.len(),
        i <= b.len(),
        a.take(i) == b.take(i),
    ensures
        text_lt(a, b) == text_lt(a.skip(i), b.skip(i)),
    decreases i,
{
    if i > 0 {
        assert(a[0] == a.take(i)[0]);
        assert(b[0] == b.take(i)[0]);
        assert(a.drop_first().take(i - 1) =~= a.take(i).drop_first());
        assert(b.drop_first().take(i - 1) =~= b.take(i).drop_first());
        lemma_text_lt_skip(a.drop_first(), b.drop_first(), i - 1);
        assert(a.drop_first().skip(i - 1) =~= a.skip(i));
        assert(b.drop_first().skip(i - 1) =~= b.skip(i));
    } else {
        assert(a.skip(0) =~= a);
        assert(b.skip(0) =~= b);
    }
}

/// Whether `a` sorts strictly before `b`.
pub fn text_less(a: &str, b: &str) -> (r: bool)
    ensures
        r == text_lt(a@, b@),
{
    let x = chars_of(a);
    let y = chars_of(b);
    let mut i: usize = 0;
    while i < x.len() && i < y.len()
        invariant
            x@ == a@,
            y@ == b@,
            i <= x.len(),
            i <= y.len(),
            a@.take(i as int) == b@.take(i as int),
        decreases x.len() - i,
    {
        if x[i] != y[i] {
            proof {
                lemma_text_lt_skip(a@, b@, i as int);
                assert(a@.skip(i as int)[0] == x[i as int]);
                assert(b@.skip(i as int)[0] == y[i as int]);
            }
            return x[i] < y[i];
        }
        assert(a@.take(i + 1) =~= a@.take(i as int).push(x[i as int]));
        assert(b@.take(i + 1) =~= b@.take(i as int).push(y[i as int]));
        i = i + 1;
    }
    proof {
        lemma_text_lt_skip(a@, b@, i as int);
    }
    i < y.len()
}

/// Values that carry a text sort key.
pub trait TextKey: Sized {
    /// The key, as text.
    spec fn text_key(&self) -> Seq<char>;

    /// The key, as a string slice.
    fn key_text(&self) -> (r: &str)
        ensures
            r@ == self.text_key();
}

/// Whether the keys of `s` are in non-decreasing order.
pub open spec fn keys_sorted<T: TextKey>(s: Seq<T>) -> bool {
    forall|i: int, j: int| 0 <= i < j < s.len() ==> text_le(#[trigger] s[i].text_key(), #[trigger] s[j].text_key())
}

/// Whether a value has the key `k`.
pub open spec fn keyed<T: TextKey>(k: Seq<char>) -> spec_fn(T) -> bool {
    |t: T| t.text_key() == k
}

/// The values of `v` ordered by key; values with equal keys keep their
/// relative order (a stable sort).
pub fn sort_by_text_key<T: TextKey>(v: Vec<T>) -> (r: Vec<T>)
    ensures
        r@.to_multiset() == v@.to_multiset(),
        keys_sorted(r@),
        forall|k: Seq<char>| #[trigger] r@.filter(keyed::<T>(k)) == v@.filter(keyed::<T>(k)),
{
    broadcast use vstd::seq_lib::group_to_multiset_ensures;

    let ghost orig = v@;
    assert(orig.len() == v.len());
    let mut src = v;
    let mut r: Vec<T> = Vec::new();
    let mut taken: usize = 0;
    while src.len() > 0
        invariant
            src@ == orig.skip(taken as int),
            taken <= orig.len(),
            orig.len() <= usize::MAX,
            r@.to_multiset() == orig.take(taken as int).to_multiset(),
            keys_sorted(r@),
            forall|k: Seq<char>|
                #[trigger] r@.filter(keyed::<T>(k)) == orig.take(taken as int).filter(keyed::<T>(k)),
        decreases src.len(),
    {
        assert(taken < orig.len());
        let x = src.remove(0);
        assert(x == orig[taken as int]);
        let mut pos: usize = 0;
        while pos < r.len() && !text_less(x.key_text(), r[pos].key_text())
            invariant
                pos <= r.len(),
                forall|j: int| 0 <= j < pos ==> !text_lt(x.text_key(), #[trigger] r@[j].text_key()),
            decreases r.len() - pos,
        {
            pos = pos + 1;
        }
        let ghost before = r@;
        r.insert(pos, x);
        proof {
            vstd::seq_lib::to_multiset_insert(before, pos as int, x);
            assert(orig.take(taken + 1) =~= orig.take(taken as int).push(x));
            vstd::seq_lib::to_multiset_build(orig.take(taken as int), x);
            let head = before.take(pos as int);
            let tail = before.skip(pos as int);
            assert(r@ =~= head + seq![x] + tail);
            assert(before =~= head + tail);
            assert forall|k: Seq<char>| #[trigger] r@.filter(keyed::<T>(k)) == orig.take(
                taken as int,
            ).push(x).filter(keyed::<T>(k)) by {
                let f = keyed::<T>(k);
                Seq::filter_distributes_over_add(head + seq![x], tail, f);
                Seq::filter_distributes_over_add(head, seq![x], f);
                Seq::filter_distributes_over_add(head, tail, f);
                orig.take(taken as int).lemma_filter_push(x, f);
                assert(seq![x] =~= Seq::<T>::empty().push(x));
                Seq::<T>::empty().lemma_filter_push(x, f);
                assert(Seq::<T>::empty().filter(f) =~= Seq::<T>::empty()) by {
                    Seq::<T>::empty().lemma_all_neg_filter_empty(f);
                }
                if x.text_key() == k {
                    assert(tail.all(|t: T| !f(t))) by {
                        assert forall|i: int| 0 <= i < tail.len() implies !f(#[trigger] tail[i]) by {
                            assert(tail[i] == before[pos + i]);
                            assert(text_lt(x.text_key(), before[pos as int].text_key()));
                            if i > 0 {
                                assert(text_le(before[pos as int].text_key(), before[pos + i].text_key()));
                                if text_lt(before[pos as int].text_key(), before[pos + i].text_key()) {
                                    lemma_text_lt_transitive(
                                        x.text_key(),
                                        before[pos as int].text_key(),
                                        before[pos + i].text_key(),
                                    );
                                }
                            }
                            lemma_text_lt_irreflexive(x.text_key());
                        }
                    }
                    tail.lemma_all_neg_filter_empty(f);
                    assert(tail.filter(f) =~= Seq::<T>::empty());
                    assert(r@.filter(f) =~= before.filter(f).push(x));
                } else {
                    assert(r@.filter(f) =~= before.filter(f));
                }
            }
            assert forall|i: int, j: int| 0 <= i < j < r@.len() implies text_le(
                #[trigger] r@[i].text_key(),
                #[trigger] r@[j].text_key(),
            ) by {
                if j < pos {
                    assert(r@[i] == before[i] && r@[j] == before[j]);
                } else if j == pos {
                    assert(r@[i] == before[i]);
                    lemma_text_lt_total(before[i].text_key(), x.text_key());
                } else if i == pos {
                    assert(r@[j] == before[j - 1]);
                    assert(text_lt(x.text_key(), before[pos as int].text_key()));
                    if j - 1 > pos {
                        assert(text_le(before[pos as int].text_key(), before[j - 1].text_key()));
                        if text_lt(before[pos as int].text_key(), before[j - 1].text_key()) {
                            lemma_text_lt_transitive(
                                x.text_key(),
                                before[pos as int].text_key(),
                                before[j - 1].text_key(),
                            );
                        }
                    }
                } else if i < pos {
                    assert(r@[i] == before[i] && r@[j] == before[j - 1]);
                } else {
                    assert(r@[i] == before[i - 1] && r@[j] == before[j - 1]);
                }
            }
            assert(src@ =~= orig.skip(taken + 1));
        }
        taken = taken + 1;
    }
    assert(orig.take(taken as int) =~= orig);
    r
}

} // verus!
