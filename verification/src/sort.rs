//! Stable insertion sort, as a specification, and what it guarantees: the
//! result is ordered and holds the same items.

use vstd::prelude::*;

verus! {

/// `x` placed into `s` just before the first item that it goes before.
pub open spec fn insert_by<A>(s: Seq<A>, x: A, before: spec_fn(A, A) -> bool) -> Seq<A>
    decreases s.len(),
{
    if s.len() == 0 {
        seq![x]
    } else if before(x, s[0]) {
        seq![x] + s
    } else {
        seq![s[0]] + insert_by(s.drop_first(), x, before)
    }
}

/// The items of `s` inserted one by one, in order, into an empty sequence:
/// ordered by `before`, with items that neither goes before the other kept in
/// the order of `s`.
pub open spec fn sort_by_insertion<A>(s: Seq<A>, before: spec_fn(A, A) -> bool) -> Seq<A>
    decreases s.len(),
{
    if s.len() == 0 {
        seq![]
    } else {
        insert_by(sort_by_insertion(s.drop_last(), before), s.last(), before)
    }
}

/// `before` is transitive.
pub open spec fn transitive<A>(before: spec_fn(A, A) -> bool) -> bool {
    forall|a: A, b: A, c: A| #[trigger] before(a, b) && #[trigger] before(b, c) ==> before(a, c)
}

/// No item goes before itself.
pub open spec fn irreflexive<A>(before: spec_fn(A, A) -> bool) -> bool {
    forall|a: A| !#[trigger] before(a, a)
}

/// No item of `s` goes before an item that precedes it.
pub open spec fn ordered_by<A>(s: Seq<A>, before: spec_fn(A, A) -> bool) -> bool {
    forall|i: int, j: int| 0 <= i < j < s.len() ==> !before(#[trigger] s[j], #[trigger] s[i])
}

/// Inserting places `x` at the first index whose item it goes before.
pub proof fn lemma_insert_by_is_insert<A>(s: Seq<A>, x: A, before: spec_fn(A, A) -> bool, p: int)
    requires
        0 <= p <= s.len(),
        forall|k: int| 0 <= k < p ==> !before(x, #[trigger] s[k]),
        p == s.len() || before(x, s[p]),
    ensures
        insert_by(s, x, before) == s.insert(p, x),
    decreases s.len(),
{
    if s.len() == 0 {
        assert(s.insert(p, x) =~= seq![x]);
    } else if p == 0 {
        assert(s.insert(p, x) =~= seq![x] + s);
    } else {
        let t = s.drop_first();
        assert forall|k: int| 0 <= k < p - 1 implies !before(x, #[trigger] t[k]) by {
            assert(t[k] == s[k + 1]);
        }
        lemma_insert_by_is_insert(t, x, before, p - 1);
        assert(s.insert(p, x) =~= seq![s[0]] + t.insert(p - 1, x));
    }
}

proof fn lemma_insert_by_multiset<A>(s: Seq<A>, x: A, before: spec_fn(A, A) -> bool)
    ensures
        insert_by(s, x, before).to_multiset() =~= s.to_multiset().insert(x),
        insert_by(s, x, before).len() == s.len() + 1,
    decreases s.len(),
{
    broadcast use vstd::seq_lib::group_to_multiset_ensures, vstd::multiset::group_multiset_axioms;

    if s.len() == 0 {
        assert(seq![x] =~= Seq::<A>::empty().push(x));
    } else {
        let t = s.drop_first();
        lemma_insert_by_multiset(t, x, before);
        vstd::seq_lib::lemma_multiset_commutative(seq![x], s);
        vstd::seq_lib::lemma_multiset_commutative(seq![s[0]], insert_by(t, x, before));
        vstd::seq_lib::lemma_multiset_commutative(seq![s[0]], t);
        assert(seq![s[0]] + t =~= s);
        assert(seq![x] =~= Seq::<A>::empty().push(x));
        assert(seq![s[0]] =~= Seq::<A>::empty().push(s[0]));
    }
}

proof fn lemma_insert_by_contains<A>(s: Seq<A>, x: A, before: spec_fn(A, A) -> bool, y: A)
    ensures
        insert_by(s, x, before).contains(y) <==> (y == x || s.contains(y)),
{
    broadcast use vstd::seq_lib::group_to_multiset_ensures, vstd::multiset::group_multiset_axioms;

    lemma_insert_by_multiset(s, x, before);
    assert(s.to_multiset().insert(x).count(y) == s.to_multiset().count(y) + if y == x {
        1nat
    } else {
        0nat
    });
}

proof fn lemma_insert_by_ordered<A>(s: Seq<A>, x: A, before: spec_fn(A, A) -> bool)
    requires
        transitive(before),
        irreflexive(before),
        ordered_by(s, before),
    ensures
        ordered_by(insert_by(s, x, before), before),
    decreases s.len(),
{
    let r = insert_by(s, x, before);
    if s.len() == 0 {
    } else if before(x, s[0]) {
        assert forall|i: int, j: int| 0 <= i < j < r.len() implies !before(#[trigger] r[j], #[trigger] r[i]) by {
            if i == 0 {
                assert(r[j] == s[j - 1]);
                if before(s[j - 1], x) {
                    assert(before(s[j - 1], s[0]));
                    if j - 1 > 0 {
                        assert(!before(s[j - 1], s[0]));
                    }
                }
            } else {
                assert(r[i] == s[i - 1] && r[j] == s[j - 1]);
            }
        }
    } else {
        let t = s.drop_first();
        assert(ordered_by(t, before)) by {
            assert forall|i: int, j: int| 0 <= i < j < t.len() implies !before(#[trigger] t[j], #[trigger] t[i]) by {
                assert(t[i] == s[i + 1] && t[j] == s[j + 1]);
            }
        }
        lemma_insert_by_ordered(t, x, before);
        let rt = insert_by(t, x, before);
        assert forall|i: int, j: int| 0 <= i < j < r.len() implies !before(#[trigger] r[j], #[trigger] r[i]) by {
            if i == 0 {
                assert(r[j] == rt[j - 1]);
                lemma_insert_by_contains(t, x, before, rt[j - 1]);
                assert(rt.contains(rt[j - 1]));
                if rt[j - 1] != x {
                    let k = choose|k: int| 0 <= k < t.len() && t[k] == rt[j - 1];
                    assert(s[k + 1] == t[k]);
                }
            } else {
                assert(r[i] == rt[i - 1] && r[j] == rt[j - 1]);
            }
        }
    }
}

/// Sorting by insertion keeps the items and orders them.
pub proof fn lemma_sort_by_insertion<A>(s: Seq<A>, before: spec_fn(A, A) -> bool)
    requires
        transitive(before),
        irreflexive(before),
    ensures
        sort_by_insertion(s, before).to_multiset() =~= s.to_multiset(),
        sort_by_insertion(s, before).len() == s.len(),
        ordered_by(sort_by_insertion(s, before), before),
    decreases s.len(),
{
    broadcast use vstd::seq_lib::group_to_multiset_ensures;

    if s.len() > 0 {
        lemma_sort_by_insertion(s.drop_last(), before);
        lemma_insert_by_multiset(sort_by_insertion(s.drop_last(), before), s.last(), before);
        lemma_insert_by_ordered(sort_by_insertion(s.drop_last(), before), s.last(), before);
        assert(s.drop_last().push(s.last()) =~= s);
    }
}

} // verus!
