//! Facts on sequences that hold the same items, each as often, in another
//! order.

use vstd::prelude::*;
use vstd::seq_lib::{
    to_multiset_build, to_multiset_contains, to_multiset_insert, to_multiset_len,
    to_multiset_remove,
};

verus! {

/// A finite set, laid out as a sequence, comes out with each of its items
/// once.
pub proof fn lemma_to_seq_has_each_once<A>(s: Set<A>)
    requires
        s.finite(),
    ensures
        s.to_seq().no_duplicates(),
        s.to_seq().to_set() == s,
        s.to_seq().len() == s.len(),
    decreases s.len(),
{
    broadcast use vstd::set::group_set_axioms;

    s.lemma_to_seq_to_set_id();
    if s.len() != 0 {
        let x = s.choose();
        let rest = s.remove(x);
        lemma_to_seq_has_each_once(rest);
        let tail = rest.to_seq();
        assert(s.to_seq() == Seq::<A>::empty().push(x) + tail);
        assert(!tail.contains(x)) by {
            if tail.contains(x) {
                assert(tail.to_set().contains(x));
            }
        }
        assert forall|i: int, j: int|
            0 <= i < s.to_seq().len() && 0 <= j < s.to_seq().len() && i != j implies s.to_seq()[i]
            != s.to_seq()[j] by {
            if i > 0 {
                assert(tail.contains(tail[i - 1]));
            }
            if j > 0 {
                assert(tail.contains(tail[j - 1]));
            }
        }
    }
}

/// Two sequences without duplicates that hold the same items hold them
/// equally often.
pub proof fn lemma_same_items_once<A>(a: Seq<A>, b: Seq<A>)
    requires
        a.no_duplicates(),
        b.no_duplicates(),
        a.to_set() == b.to_set(),
    ensures
        a.to_multiset() == b.to_multiset(),
{
    broadcast use vstd::multiset::group_multiset_axioms;

    a.lemma_multiset_has_no_duplicates();
    b.lemma_multiset_has_no_duplicates();
    assert forall|x: A| a.to_multiset().count(x) == b.to_multiset().count(x) by {
        to_multiset_contains(a, x);
        to_multiset_contains(b, x);
        assert(a.contains(x) <==> a.to_set().contains(x));
        assert(b.contains(x) <==> b.to_set().contains(x));
    }
    assert(a.to_multiset() =~= b.to_multiset());
}

/// Applying one function to every item of two sequences that hold the same
/// items equally often gives two sequences that do so too.
pub proof fn lemma_map_keeps_counts<A, B>(a: Seq<A>, b: Seq<A>, f: spec_fn(A) -> B)
    requires
        a.to_multiset() == b.to_multiset(),
    ensures
        a.map_values(f).to_multiset() == b.map_values(f).to_multiset(),
    decreases a.len(),
{
    broadcast use vstd::multiset::group_multiset_axioms;
    to_multiset_len(a);
    to_multiset_len(b);
    assert(a.len() == b.len());
    if a.len() == 0 {
        assert(a.map_values(f) =~= b.map_values(f));
    } else {
        let x = a.last();
        let front = a.drop_last();
        assert(a =~= front.push(x));
        to_multiset_build(front, x);
        to_multiset_contains(b, x);
        assert(b.contains(x));
        let j = b.index_of(x);
        b.index_of_first_ensures(x);
        let others = b.remove(j);
        to_multiset_remove(b, j);
        assert(front.to_multiset() =~= others.to_multiset());
        lemma_map_keeps_counts(front, others, f);
        assert(a.map_values(f) =~= front.map_values(f).push(f(x)));
        assert(b.map_values(f) =~= others.map_values(f).insert(j, f(x)));
        to_multiset_build(front.map_values(f), f(x));
        to_multiset_insert(others.map_values(f), j, f(x));
    }
}

} // verus!
