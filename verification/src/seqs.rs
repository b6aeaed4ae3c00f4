//! Facts about inserting into sequences, shared by the stable sorts.

use vstd::prelude::*;

verus! {

/// Inserting an element adds it once to the sequence's multiset.
pub proof fn lemma_insert_multiset<A>(s: Seq<A>, p: int, m: A)
    requires
        0 <= p <= s.len(),
    ensures
        s.insert(p, m).to_multiset() == s.to_multiset().insert(m),
{
    broadcast use vstd::seq_lib::group_to_multiset_ensures;
    let t = s.insert(p, m);
    assert(t.remove(p) =~= s);
    assert(t[p] == m);
    assert(t.to_multiset().remove(m) == s.to_multiset());
    assert(t.contains(m));
    assert(t.to_multiset().count(m) > 0);
    assert(t.to_multiset() =~= s.to_multiset().insert(m));
}

/// Inserting an element before every element that shares its class adds it
/// to the end of its class, and leaves every other class as it was.
pub proof fn lemma_insert_filter<A>(s: Seq<A>, p: int, m: A, f: spec_fn(A) -> bool)
    requires
        0 <= p <= s.len(),
        f(m) ==> forall|a: int| p <= a < s.len() ==> !f(#[trigger] s[a]),
    ensures
        s.insert(p, m).filter(f) == (if f(m) { s.filter(f).push(m) } else { s.filter(f) }),
{
    let front = s.take(p);
    let back = s.skip(p);
    assert(s =~= front + back);
    assert(s.insert(p, m) =~= front + seq![m] + back);
    vstd::seq::Seq::filter_distributes_over_add(front, back, f);
    vstd::seq::Seq::filter_distributes_over_add(front + seq![m], back, f);
    vstd::seq::Seq::filter_distributes_over_add(front, seq![m], f);
    assert(seq![m].filter(f) == (if f(m) { seq![m] } else { Seq::<A>::empty() })) by {
        reveal_with_fuel(Seq::filter, 2);
        assert(seq![m].drop_last() =~= Seq::<A>::empty());
    }
    if f(m) {
        assert forall|a: int| 0 <= a < back.len() implies !f(#[trigger] back[a]) by {
            assert(back[a] == s[p + a]);
        }
        back.lemma_all_neg_filter_empty(f);
        assert(back.filter(f) =~= Seq::<A>::empty());
        assert(front.filter(f) + seq![m] + Seq::<A>::empty() =~= front.filter(f).push(m));
        assert(s.filter(f) =~= front.filter(f) + Seq::<A>::empty());
    } else {
        assert(front.filter(f) + Seq::<A>::empty() =~= front.filter(f));
    }
}

} // verus!
