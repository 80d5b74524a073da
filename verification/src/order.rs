//! Stable insertion order: where an element goes among elements already in
//! order, and the order of a whole list, for any strict weak order `before`.
use vstd::prelude::*;

verus! {

/// `before` is a strict weak order: irreflexive, asymmetric, and "not before"
/// is transitive.
pub open spec fn strict_weak_order<A>(before: spec_fn(A, A) -> bool) -> bool {
    &&& forall|a: A, b: A| #[trigger] before(a, b) ==> !before(b, a)
    &&& forall|a: A, b: A, c: A| #![trigger before(a, b), before(b, c)] !before(a, b) && !before(b, c) ==> !before(a, c)
}

/// Where `x` goes in `s`: after every element that `x` is not before.
pub open spec fn insert_pos<A>(s: Seq<A>, x: A, before: spec_fn(A, A) -> bool) -> int
    decreases s.len(),
{
    if s.len() == 0 {
        0
    } else if before(x, s.last()) {
        insert_pos(s.drop_last(), x, before)
    } else {
        s.len() as int
    }
}

/// `s` with `x` inserted in its place.
pub open spec fn insert_by<A>(s: Seq<A>, x: A, before: spec_fn(A, A) -> bool) -> Seq<A> {
    s.insert(insert_pos(s, x, before), x)
}

/// `s` put in order, each element inserted in turn; elements that are not
/// before one another keep their relative order.
pub open spec fn sort_by<A>(s: Seq<A>, before: spec_fn(A, A) -> bool) -> Seq<A>
    decreases s.len(),
{
    if s.len() == 0 {
        s
    } else {
        insert_by(sort_by(s.drop_last(), before), s.last(), before)
    }
}

/// No element is before an earlier one.
pub open spec fn sorted_by<A>(s: Seq<A>, before: spec_fn(A, A) -> bool) -> bool {
    forall|i: int, j: int| 0 <= i < j < s.len() ==> !before(#[trigger] s[j], #[trigger] s[i])
}

pub proof fn lemma_insert_pos_bounds<A>(s: Seq<A>, x: A, before: spec_fn(A, A) -> bool)
    ensures
        0 <= insert_pos(s, x, before) <= s.len(),
        forall|k: int| insert_pos(s, x, before) <= k < s.len() ==> before(x, #[trigger] s[k]),
        insert_pos(s, x, before) > 0 ==> !before(x, s[insert_pos(s, x, before) - 1]),
    decreases s.len(),
{
    if s.len() > 0 && before(x, s.last()) {
        lemma_insert_pos_bounds(s.drop_last(), x, before);
        assert forall|k: int| insert_pos(s, x, before) <= k < s.len() implies before(x, #[trigger] s[k]) by {
            if k < s.len() - 1 {
                assert(s[k] == s.drop_last()[k]);
            }
        }
    }
}

pub proof fn lemma_insert_sorted<A>(s: Seq<A>, x: A, before: spec_fn(A, A) -> bool)
    requires
        strict_weak_order(before),
        sorted_by(s, before),
    ensures
        sorted_by(insert_by(s, x, before), before),
        insert_by(s, x, before).to_multiset() == s.to_multiset().insert(x),
{
    lemma_insert_pos_bounds(s, x, before);
    let p = insert_pos(s, x, before);
    let r = insert_by(s, x, before);
    assert forall|i: int, j: int| 0 <= i < j < r.len() implies !before(#[trigger] r[j], #[trigger] r[i]) by {
        if i < p && j == p {
            assert(!before(x, s[p - 1]));
            if i < p - 1 {
                assert(!before(s[p - 1], s[i]));
            }
        } else if i == p && j > p {
            assert(before(x, s[j - 1]));
        } else if i < p && j > p {
            assert(!before(s[j - 1], s[i]));
        } else if i < p && j < p {
            assert(!before(s[j], s[i]));
        } else {
            assert(!before(s[j - 1], s[i - 1]));
        }
    }
    vstd::seq_lib::to_multiset_insert(s, p, x);
}

/// Sorting gives a list in order.
pub proof fn lemma_sort_by_sorted<A>(s: Seq<A>, before: spec_fn(A, A) -> bool)
    requires
        strict_weak_order(before),
    ensures
        sorted_by(sort_by(s, before), before),
    decreases s.len(),
{
    if s.len() > 0 {
        lemma_sort_by_sorted(s.drop_last(), before);
        lemma_insert_sorted(sort_by(s.drop_last(), before), s.last(), before);
    }
}

/// Sorting keeps every element, as often as it occurs.
pub proof fn lemma_sort_by_permutes<A>(s: Seq<A>, before: spec_fn(A, A) -> bool)
    requires
        strict_weak_order(before),
    ensures
        sort_by(s, before).to_multiset() == s.to_multiset(),
    decreases s.len(),
{
    if s.len() > 0 {
        lemma_sort_by_permutes(s.drop_last(), before);
        lemma_sort_by_sorted(s.drop_last(), before);
        lemma_insert_sorted(sort_by(s.drop_last(), before), s.last(), before);
        assert(s =~= s.drop_last().push(s.last()));
        vstd::seq_lib::to_multiset_build(s.drop_last(), s.last());
    }
}

/// One step of an insertion: once the elements from `j` on are all after
/// `x`, the place of `x` in `s` is its place in the first `j` elements.
pub proof fn lemma_insert_pos_step<A>(s: Seq<A>, x: A, before: spec_fn(A, A) -> bool, j: int)
    requires
        0 < j <= s.len(),
        before(x, s[j - 1]),
    ensures
        insert_pos(s.take(j), x, before) == insert_pos(s.take(j - 1), x, before),
{
    assert(s.take(j).drop_last() =~= s.take(j - 1));
}

/// Where the search for the place of `x` stops.
pub proof fn lemma_insert_pos_stop<A>(s: Seq<A>, x: A, before: spec_fn(A, A) -> bool, j: int)
    requires
        0 <= j <= s.len(),
        j > 0 ==> !before(x, s[j - 1]),
    ensures
        insert_pos(s.take(j), x, before) == j,
{
    if j > 0 {
        assert(s.take(j).last() == s[j - 1]);
    }
}

/// The first `k + 1` elements sorted are the first `k` sorted with element `k` inserted.
pub proof fn lemma_sort_by_take<A>(s: Seq<A>, before: spec_fn(A, A) -> bool, k: int)
    requires
        0 <= k < s.len(),
    ensures
        sort_by(s.take(k + 1), before) == insert_by(sort_by(s.take(k), before), s[k], before),
{
    assert(s.take(k + 1).drop_last() =~= s.take(k));
}

/// Neither `a` nor `b` is before the other.
pub open spec fn equivalent<A>(before: spec_fn(A, A) -> bool, a: A, b: A) -> bool {
    !before(a, b) && !before(b, a)
}

/// Sorting is stable: the elements equivalent to `e` come out in the order
/// they came in.
pub proof fn lemma_sort_by_stable<A>(s: Seq<A>, before: spec_fn(A, A) -> bool, e: A)
    requires
        strict_weak_order(before),
    ensures
        sort_by(s, before).filter(|x: A| equivalent(before, x, e)) == s.filter(|x: A| equivalent(before, x, e)),
    decreases s.len(),
{
    broadcast use vstd::seq_lib::group_filter_ensures;
    let pred = |x: A| equivalent(before, x, e);
    reveal_with_fuel(Seq::filter, 1);
    if s.len() > 0 {
        lemma_sort_by_stable(s.drop_last(), before, e);
        let t = sort_by(s.drop_last(), before);
        let x = s.last();
        lemma_insert_pos_bounds(t, x, before);
        let p = insert_pos(t, x, before);
        let head = t.take(p);
        let tail = t.skip(p);
        assert(t =~= head + tail);
        assert(t.insert(p, x) =~= head + seq![x] + tail);
        Seq::filter_distributes_over_add(head, tail, pred);
        Seq::filter_distributes_over_add(head + seq![x], tail, pred);
        Seq::filter_distributes_over_add(head, seq![x], pred);
        assert(seq![x].drop_last() =~= Seq::<A>::empty());
        assert(seq![x].drop_last().filter(pred) =~= Seq::<A>::empty());
        if pred(x) {
            assert forall|k: int| 0 <= k < tail.len() implies !pred(#[trigger] tail[k]) by {
                assert(tail[k] == t[p + k]);
                assert(before(x, t[p + k]));
                if !before(e, t[p + k]) {
                    assert(!before(x, e));
                    assert(!before(x, t[p + k]));
                }
            }
            tail.lemma_all_neg_filter_empty(pred);
            assert(tail.filter(pred) =~= Seq::<A>::empty());
            assert(t.insert(p, x).filter(pred) =~= t.filter(pred).push(x));
        } else {
            assert(seq![x].filter(pred) =~= Seq::<A>::empty());
            assert(t.insert(p, x).filter(pred) =~= t.filter(pred));
        }
    }
}

} // verus!
