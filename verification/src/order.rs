//! Arranging a sequence by an order: what comes first stays first among equals.

use vstd::prelude::*;

verus! {

/// `s` with `c` in front of the first element that `c` goes before.
pub open spec fn place_by<T>(s: Seq<T>, c: T, before: spec_fn(T, T) -> bool) -> Seq<T>
    decreases s.len(),
{
    if s.len() == 0 {
        seq![c]
    } else if before(c, s[0]) {
        seq![c] + s
    } else {
        seq![s[0]] + place_by(s.drop_first(), c, before)
    }
}

/// The elements of `s` in the order `before`; of two that neither goes before
/// the other, the one that came first stays first.
pub open spec fn arranged<T>(s: Seq<T>, before: spec_fn(T, T) -> bool) -> Seq<T>
    decreases s.len(),
{
    if s.len() == 0 {
        Seq::empty()
    } else {
        place_by(arranged(s.drop_last(), before), s.last(), before)
    }
}

/// Whether no element of `s` goes before one that stands in front of it.
pub open spec fn in_order<T>(s: Seq<T>, before: spec_fn(T, T) -> bool) -> bool {
    forall|i: int, j: int| 0 <= i < j < s.len() ==> !before(#[trigger] s[j], #[trigger] s[i])
}

/// Whether `before` is an order by some rank.
pub open spec fn ranks<T>(before: spec_fn(T, T) -> bool) -> bool {
    &&& forall|a: T, b: T| #[trigger] before(a, b) ==> !before(b, a)
    &&& forall|a: T, b: T, c: T|
        #![trigger before(a, b), before(b, c)]
        !before(a, b) && !before(b, c) ==> !before(a, c)
}

/// Where an element is placed.
pub proof fn lemma_place_at<T>(s: Seq<T>, c: T, before: spec_fn(T, T) -> bool, p: int)
    requires
        0 <= p <= s.len(),
        forall|i: int| 0 <= i < p ==> !before(c, #[trigger] s[i]),
        p < s.len() ==> before(c, s[p]),
    ensures
        place_by(s, c, before) == s.insert(p, c),
    decreases s.len(),
{
    if s.len() == 0 {
        assert(s.insert(0, c) =~= seq![c]);
    } else if p == 0 {
        assert(s.insert(0, c) =~= seq![c] + s);
    } else {
        let rest = s.drop_first();
        assert(!before(c, s[0]));
        assert forall|i: int| 0 <= i < p - 1 implies !before(c, #[trigger] rest[i]) by {
            assert(rest[i] == s[i + 1]);
        }
        lemma_place_at(rest, c, before, p - 1);
        assert(s.insert(p, c) =~= seq![s[0]] + rest.insert(p - 1, c));
    }
}

proof fn lemma_place_position<T>(s: Seq<T>, c: T, before: spec_fn(T, T) -> bool) -> (p: int)
    ensures
        0 <= p <= s.len(),
        forall|i: int| 0 <= i < p ==> !before(c, #[trigger] s[i]),
        p < s.len() ==> before(c, s[p]),
        place_by(s, c, before) == s.insert(p, c),
    decreases s.len(),
{
    if s.len() == 0 || before(c, s[0]) {
        lemma_place_at(s, c, before, 0);
        0
    } else {
        let rest = s.drop_first();
        let q = lemma_place_position(rest, c, before);
        assert forall|i: int| 0 <= i < q + 1 implies !before(c, #[trigger] s[i]) by {
            if i > 0 {
                assert(rest[i - 1] == s[i]);
            }
        }
        lemma_place_at(s, c, before, q + 1);
        q + 1
    }
}

/// Arranging neither loses nor adds an element.
pub proof fn lemma_arranged_permutes<T>(s: Seq<T>, before: spec_fn(T, T) -> bool)
    ensures
        arranged(s, before).to_multiset() == s.to_multiset(),
        arranged(s, before).len() == s.len(),
    decreases s.len(),
{
    broadcast use vstd::seq_lib::group_to_multiset_ensures;

    if s.len() == 0 {
        assert(arranged(s, before) =~= s);
    } else {
        let a = arranged(s.drop_last(), before);
        lemma_arranged_permutes(s.drop_last(), before);
        let p = lemma_place_position(a, s.last(), before);
        vstd::seq_lib::to_multiset_insert(a, p, s.last());
        assert(s =~= s.drop_last().push(s.last()));
    }
}

/// What is arranged is in order.
pub proof fn lemma_arranged_in_order<T>(s: Seq<T>, before: spec_fn(T, T) -> bool)
    requires
        ranks(before),
    ensures
        in_order(arranged(s, before), before),
    decreases s.len(),
{
    if s.len() > 0 {
        let a = arranged(s.drop_last(), before);
        let c = s.last();
        lemma_arranged_in_order(s.drop_last(), before);
        let p = lemma_place_position(a, c, before);
        let r = a.insert(p, c);
        assert forall|i: int, j: int| 0 <= i < j < r.len() implies !before(
            #[trigger] r[j],
            #[trigger] r[i],
        ) by {
            if j < p {
                assert(r[i] == a[i] && r[j] == a[j]);
            } else if j == p {
                assert(r[i] == a[i]);
            } else if i == p {
                if j - 1 == p {
                    assert(before(c, a[p]));
                } else {
                    assert(!before(a[j - 1], a[p]));
                    assert(before(c, a[p]));
                    if before(a[j - 1], c) {
                        assert(!before(c, a[j - 1]));
                        assert(!before(c, a[p]));
                    }
                }
            } else if i < p {
                assert(r[i] == a[i] && r[j] == a[j - 1]);
            } else {
                assert(r[i] == a[i - 1] && r[j] == a[j - 1]);
            }
        }
    }
}

/// An element is among the arranged ones just where it was among the given.
pub proof fn lemma_arranged_contains<T>(s: Seq<T>, before: spec_fn(T, T) -> bool, x: T)
    ensures
        arranged(s, before).contains(x) == s.contains(x),
{
    broadcast use vstd::seq_lib::group_to_multiset_ensures;

    lemma_arranged_permutes(s, before);
    assert(arranged(s, before).to_multiset().count(x) == s.to_multiset().count(x));
}

} // verus!
