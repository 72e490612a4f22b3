//! Facts about sequences that hold the same elements, possibly in another
//! order: filtering and mapping keep that, and so does holding each
//! element once.

use vstd::multiset::Multiset;
use vstd::prelude::*;

verus! {

/// The elements of a filtered sequence are the filtered elements.
pub proof fn lemma_filter_to_multiset<A>(s: Seq<A>, f: spec_fn(A) -> bool)
    ensures
        s.filter(f).to_multiset() =~= s.to_multiset().filter(f),
    decreases s.len(),
{
    broadcast use vstd::multiset::group_multiset_axioms;
    broadcast use vstd::seq_lib::group_to_multiset_ensures;

    reveal(Seq::filter);
    if s.len() == 0 {
        assert(s.filter(f) =~= Seq::<A>::empty());
        assert(s.to_multiset() =~= Multiset::<A>::empty());
    } else {
        let x = s.last();
        let rest = s.drop_last();
        assert(s =~= rest.push(x));
        lemma_filter_to_multiset(rest, f);
        assert(s.to_multiset() =~= rest.to_multiset().insert(x));
        if f(x) {
            assert(s.filter(f) =~= rest.filter(f).push(x));
        } else {
            assert(s.filter(f) =~= rest.filter(f));
        }
    }
}

/// Sequences with the same elements still have the same elements after
/// filtering.
pub proof fn lemma_filter_perm<A>(a: Seq<A>, b: Seq<A>, f: spec_fn(A) -> bool)
    requires
        a.to_multiset() == b.to_multiset(),
    ensures
        a.filter(f).to_multiset() == b.filter(f).to_multiset(),
{
    lemma_filter_to_multiset(a, f);
    lemma_filter_to_multiset(b, f);
}

/// Sequences with the same elements still have the same elements after
/// mapping each element.
pub proof fn lemma_map_perm<A, B>(a: Seq<A>, b: Seq<A>, g: spec_fn(A) -> B)
    requires
        a.to_multiset() == b.to_multiset(),
    ensures
        a.map_values(g).to_multiset() == b.map_values(g).to_multiset(),
    decreases a.len(),
{
    broadcast use vstd::multiset::group_multiset_axioms;
    broadcast use vstd::seq_lib::group_to_multiset_ensures;

    if a.len() == 0 {
        assert(b.len() == b.to_multiset().len());
        assert(a.map_values(g) =~= Seq::<B>::empty());
        assert(b.map_values(g) =~= Seq::<B>::empty());
    } else {
        let x = a.last();
        let rest = a.drop_last();
        assert(a =~= rest.push(x));
        assert(a.to_multiset().count(x) > 0);
        assert(b.contains(x));
        let k = choose|k: int| 0 <= k < b.len() && b[k] == x;
        let b2 = b.remove(k);
        assert(b2.to_multiset() =~= b.to_multiset().remove(x));
        assert(rest.to_multiset() =~= a.to_multiset().remove(x));
        lemma_map_perm(rest, b2, g);
        assert(a.map_values(g) =~= rest.map_values(g).push(g(x)));
        let bm = b.map_values(g);
        assert(bm.remove(k) =~= b2.map_values(g));
        assert(bm[k] == g(x));
        assert(bm.remove(k).to_multiset() =~= bm.to_multiset().remove(g(x)));
        assert(bm.to_multiset().count(g(x)) > 0);
        assert(bm.to_multiset() =~= bm.to_multiset().remove(g(x)).insert(g(x)));
    }
}

/// A sequence with the same elements as one that holds each element once
/// also holds each element once.
pub proof fn lemma_no_duplicates_perm<A>(a: Seq<A>, b: Seq<A>)
    requires
        a.to_multiset() == b.to_multiset(),
        a.no_duplicates(),
    ensures
        b.no_duplicates(),
{
    broadcast use vstd::seq_lib::group_to_multiset_ensures;

    a.lemma_multiset_has_no_duplicates();
    assert forall|x: A| b.to_multiset().contains(x) implies b.to_multiset().count(x) == 1 by {
        assert(a.to_multiset().contains(x));
    }
    b.lemma_multiset_has_no_duplicates_conv();
}

/// An element of one of two sequences with the same elements is an
/// element of the other.
pub proof fn lemma_contains_perm<A>(a: Seq<A>, b: Seq<A>, x: A)
    requires
        a.to_multiset() == b.to_multiset(),
        a.contains(x),
    ensures
        b.contains(x),
{
    broadcast use vstd::seq_lib::group_to_multiset_ensures;

    assert(a.to_multiset().count(x) > 0);
}

} // verus!
