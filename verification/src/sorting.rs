//! Stable sorting by a strict "goes before" relation, stated as insertion sort.
use vstd::prelude::*;
use vstd::multiset::Multiset;

verus! {

broadcast use vstd::seq_lib::group_seq_properties;

/// Inserts `x` into `s` in front of the first element that `x` goes before;
/// `x` ends up after every element it does not go before.
pub open spec fn insert_by<T>(x: T, s: Seq<T>, before: spec_fn(T, T) -> bool) -> Seq<T>
    decreases s.len(),
{
    if s.len() == 0 {
        seq![x]
    } else if before(x, s[0]) {
        seq![x] + s
    } else {
        seq![s[0]] + insert_by(x, s.drop_first(), before)
    }
}

/// The stable sort of `s`: the elements of `s` inserted one after another, so
/// that of two elements that neither goes before the other the earlier stays first.
pub open spec fn sort_by<T>(s: Seq<T>, before: spec_fn(T, T) -> bool) -> Seq<T>
    decreases s.len(),
{
    if s.len() == 0 {
        s
    } else {
        insert_by(s.last(), sort_by(s.drop_last(), before), before)
    }
}

/// No element goes before an element that stands in front of it.
pub open spec fn sorted_by<T>(s: Seq<T>, before: spec_fn(T, T) -> bool) -> bool {
    forall|i: int, j: int| 0 <= i < j < s.len() ==> !before(#[trigger] s[j], #[trigger] s[i])
}

/// `before` is a strict order: irreflexive and transitive.
pub open spec fn strict_order<T>(before: spec_fn(T, T) -> bool) -> bool {
    &&& forall|a: T| !#[trigger] before(a, a)
    &&& forall|a: T, b: T, c: T| #[trigger] before(a, b) && #[trigger] before(b, c) ==> before(a, c)
}

/// Where `p` is the first position that `x` goes before, inserting `x` puts it at `p`.
pub proof fn lemma_insert_at<T>(x: T, s: Seq<T>, before: spec_fn(T, T) -> bool, p: int)
    requires
        0 <= p <= s.len(),
        forall|k: int| 0 <= k < p ==> !before(x, #[trigger] s[k]),
        p < s.len() ==> before(x, s[p]),
    ensures
        insert_by(x, s, before) == s.take(p).push(x) + s.skip(p),
    decreases p,
{
    if p == 0 {
        if s.len() == 0 {
            assert(s.take(0).push(x) + s.skip(0) =~= seq![x]);
        } else {
            assert(s.take(0).push(x) + s.skip(0) =~= seq![x] + s);
        }
    } else {
        let t = s.drop_first();
        assert forall|k: int| 0 <= k < p - 1 implies !before(x, #[trigger] t[k]) by {
            assert(t[k] == s[k + 1]);
        }
        assert(!before(x, s[0]));
        lemma_insert_at(x, t, before, p - 1);
        assert(seq![s[0]] + (t.take(p - 1).push(x) + t.skip(p - 1)) =~= s.take(p).push(x)
            + s.skip(p));
    }
}

/// Inserting adds exactly `x` to the multiset of elements.
pub proof fn lemma_insert_multiset<T>(x: T, s: Seq<T>, before: spec_fn(T, T) -> bool)
    ensures
        insert_by(x, s, before).to_multiset() == s.to_multiset().insert(x),
        insert_by(x, s, before).len() == s.len() + 1,
    decreases s.len(),
{
    if s.len() == 0 {
        assert(seq![x].to_multiset() =~= s.to_multiset().insert(x)) by {
            vstd::seq_lib::lemma_seq_union_to_multiset_commutative(s, seq![x]);
        }
    } else if before(x, s[0]) {
        vstd::seq_lib::lemma_multiset_commutative(seq![x], s);
        assert(seq![x].to_multiset() =~= Multiset::empty().insert(x));
    } else {
        let t = s.drop_first();
        lemma_insert_multiset(x, t, before);
        vstd::seq_lib::lemma_multiset_commutative(seq![s[0]], insert_by(x, t, before));
        vstd::seq_lib::lemma_multiset_commutative(seq![s[0]], t);
        assert(seq![s[0]] + t =~= s);
        assert(seq![s[0]].to_multiset() =~= Multiset::empty().insert(s[0]));
        assert(seq![s[0]].to_multiset().add(t.to_multiset().insert(x)) =~= seq![s[0]].to_multiset().add(
            t.to_multiset(),
        ).insert(x));
    }
}

/// Sorting keeps every element and nothing else.
pub proof fn lemma_sort_multiset<T>(s: Seq<T>, before: spec_fn(T, T) -> bool)
    ensures
        sort_by(s, before).to_multiset() == s.to_multiset(),
        sort_by(s, before).len() == s.len(),
    decreases s.len(),
{
    if s.len() > 0 {
        lemma_sort_multiset(s.drop_last(), before);
        lemma_insert_multiset(s.last(), sort_by(s.drop_last(), before), before);
        assert(s.drop_last().push(s.last()) =~= s);
        vstd::seq_lib::lemma_seq_union_to_multiset_commutative(s.drop_last(), seq![s.last()]);
        vstd::seq_lib::lemma_multiset_commutative(s.drop_last(), seq![s.last()]);
        assert(seq![s.last()].to_multiset() =~= Multiset::empty().insert(s.last()));
        assert(s.drop_last().to_multiset().add(Multiset::empty().insert(s.last()))
            =~= s.drop_last().to_multiset().insert(s.last()));
    }
}

/// Under a strict order, inserting into a sorted sequence keeps it sorted.
pub proof fn lemma_insert_sorted<T>(x: T, s: Seq<T>, before: spec_fn(T, T) -> bool)
    requires
        strict_order(before),
        sorted_by(s, before),
    ensures
        sorted_by(insert_by(x, s, before), before),
    decreases s.len(),
{
    if s.len() > 0 && !before(x, s[0]) {
        let t = s.drop_first();
        assert forall|i: int, j: int| 0 <= i < j < t.len() implies !before(
            #[trigger] t[j],
            #[trigger] t[i],
        ) by {
            assert(t[j] == s[j + 1] && t[i] == s[i + 1]);
        }
        lemma_insert_sorted(x, t, before);
        lemma_insert_multiset(x, t, before);
        let r = insert_by(x, t, before);
        let u = seq![s[0]] + r;
        assert forall|i: int, j: int| 0 <= i < j < u.len() implies !before(
            #[trigger] u[j],
            #[trigger] u[i],
        ) by {
            if i == 0 {
                assert(u[i] == s[0]);
                assert(u[j] == r[j - 1]);
                assert(r.to_multiset().count(r[j - 1]) > 0);
                assert(r.contains(r[j - 1]));
                // r[j - 1] is either x or an element of t
                if r[j - 1] == x {
                } else {
                    assert(t.to_multiset().insert(x).count(r[j - 1]) > 0);
                    assert(t.to_multiset().count(r[j - 1]) > 0);
                    assert(t.contains(r[j - 1]));
                    let k = choose|k: int| 0 <= k < t.len() && t[k] == r[j - 1];
                    assert(s[k + 1] == t[k]);
                }
            } else {
                assert(u[i] == r[i - 1] && u[j] == r[j - 1]);
            }
        }
    } else if s.len() > 0 {
        let u = seq![x] + s;
        assert forall|i: int, j: int| 0 <= i < j < u.len() implies !before(
            #[trigger] u[j],
            #[trigger] u[i],
        ) by {
            if i == 0 {
                assert(u[j] == s[j - 1]);
                if before(s[j - 1], x) {
                    assert(before(s[j - 1], s[0]));
                    if j - 1 == 0 {
                    } else {
                        assert(s[j - 1] == s[j - 1]);
                    }
                }
            } else {
                assert(u[i] == s[i - 1] && u[j] == s[j - 1]);
            }
        }
    }
}

/// Under a strict order, the sort of any sequence is sorted.
pub proof fn lemma_sort_sorted<T>(s: Seq<T>, before: spec_fn(T, T) -> bool)
    requires
        strict_order(before),
    ensures
        sorted_by(sort_by(s, before), before),
    decreases s.len(),
{
    if s.len() > 0 {
        lemma_sort_sorted(s.drop_last(), before);
        lemma_insert_sorted(s.last(), sort_by(s.drop_last(), before), before);
    }
}

/// Sequences with the same multiset hold the same elements.
pub proof fn lemma_same_elements<T>(a: Seq<T>, b: Seq<T>, i: int)
    requires
        a.to_multiset() == b.to_multiset(),
        0 <= i < a.len(),
    ensures
        b.contains(a[i]),
{
    a.to_multiset_ensures();
    b.to_multiset_ensures();
    assert(a.contains(a[i]));
    assert(a.to_multiset().count(a[i]) > 0);
    assert(b.to_multiset().count(a[i]) > 0);
}

/// Sorting a prefix one element longer inserts that element.
pub proof fn lemma_sort_take_step<T>(s: Seq<T>, i: int, before: spec_fn(T, T) -> bool)
    requires
        0 <= i < s.len(),
    ensures
        sort_by(s.take(i + 1), before) == insert_by(s[i], sort_by(s.take(i), before), before),
{
    assert(s.take(i + 1).drop_last() =~= s.take(i));
}

} // verus!
