//! A stable sort for values with a total preorder.

use vstd::prelude::*;

verus! {

/// Values that a total preorder ranks.
pub trait Ranked: Sized {
    /// `a` may stand before `b`.
    spec fn le(a: Self, b: Self) -> bool;

    /// Any two values are comparable.
    proof fn le_total(a: Self, b: Self)
        ensures
            Self::le(a, b) || Self::le(b, a),
    ;

    /// The preorder is transitive.
    proof fn le_transitive(a: Self, b: Self, c: Self)
        requires
            Self::le(a, b),
            Self::le(b, c),
        ensures
            Self::le(a, c),
    ;

    /// Whether `self` may stand before `other`.
    fn is_le(&self, other: &Self) -> (r: bool)
        ensures
            r == Self::le(*self, *other),
    ;
}

/// Every value may stand before the ones that follow it.
pub open spec fn ascending<T: Ranked>(s: Seq<T>) -> bool {
    forall|i: int, j: int| 0 <= i <= j < s.len() ==> T::le(#[trigger] s[i], #[trigger] s[j])
}

/// `a` and `b` have the same rank.
pub open spec fn tied<T: Ranked>(a: T, b: T) -> bool {
    T::le(a, b) && T::le(b, a)
}

/// The values of `s` that have the rank of `x`, in the order of `s`.
pub open spec fn ties<T: Ranked>(s: Seq<T>, x: T) -> Seq<T>
    decreases s.len(),
{
    if s.len() == 0 {
        Seq::<T>::empty()
    } else if tied(s[0], x) {
        seq![s[0]] + ties(s.drop_first(), x)
    } else {
        ties(s.drop_first(), x)
    }
}

/// `r` holds the values of `s` in ascending order, and values of the same rank
/// in the order in which `s` has them.
pub open spec fn sorted_from<T: Ranked>(r: Seq<T>, s: Seq<T>) -> bool {
    &&& ascending(r)
    &&& r.to_multiset() == s.to_multiset()
    &&& forall|x: T| #[trigger] ties(r, x) == ties(s, x)
}

/// The values of `s` in ascending order, and those of the same rank in the order of `s`.
pub open spec fn arranged<T: Ranked>(s: Seq<T>) -> Seq<T> {
    choose|r: Seq<T>| sorted_from(r, s)
}

proof fn lemma_ties_insert<T: Ranked>(r: Seq<T>, p: int, e: T, x: T)
    requires
        0 <= p <= r.len(),
        forall|i: int| 0 <= i < p ==> !T::le(e, #[trigger] r[i]),
    ensures
        ties(r.insert(p, e), x) == (if tied(e, x) {
            seq![e]
        } else {
            Seq::<T>::empty()
        }) + ties(r, x),
    decreases p,
{
    let q = r.insert(p, e);
    if p == 0 {
        assert(q.drop_first() =~= r);
        if !tied(e, x) {
            assert(Seq::<T>::empty() + ties(r, x) =~= ties(r, x));
        }
    } else {
        let t = r.drop_first();
        assert forall|i: int| 0 <= i < p - 1 implies !T::le(e, #[trigger] t[i]) by {
            assert(t[i] == r[i + 1]);
        }
        lemma_ties_insert(t, p - 1, e, x);
        assert(q.drop_first() =~= t.insert(p - 1, e));
        assert(q[0] == r[0]);
        if tied(e, x) {
            if tied(r[0], x) {
                T::le_transitive(e, x, r[0]);
            }
            assert(!tied(r[0], x));
        } else {
            assert(Seq::<T>::empty() + ties(t, x) =~= ties(t, x));
            assert(Seq::<T>::empty() + ties(r, x) =~= ties(r, x));
        }
    }
}

proof fn lemma_multiset_insert<T>(r: Seq<T>, p: int, e: T)
    requires
        0 <= p <= r.len(),
    ensures
        r.insert(p, e).to_multiset() == r.to_multiset().insert(e),
{
    broadcast use vstd::seq_lib::group_to_multiset_ensures;

    let q = r.insert(p, e);
    let low = r.take(p);
    let high = r.skip(p);
    assert(q =~= low.push(e) + high);
    assert(r =~= low + high);
    vstd::seq_lib::lemma_multiset_commutative(low.push(e), high);
    vstd::seq_lib::lemma_multiset_commutative(low, high);
    assert(q.to_multiset() =~= r.to_multiset().insert(e));
}

proof fn lemma_sorted_insert<T: Ranked>(r: Seq<T>, s: Seq<T>, k: int, p: int)
    requires
        0 <= k < s.len(),
        0 <= p <= r.len(),
        sorted_from(r, s.skip(k + 1)),
        forall|i: int| 0 <= i < p ==> !T::le(s[k], #[trigger] r[i]),
        p < r.len() ==> T::le(s[k], r[p]),
    ensures
        sorted_from(r.insert(p, s[k]), s.skip(k)),
{
    let e = s[k];
    let q = r.insert(p, e);
    assert forall|i: int, j: int| 0 <= i <= j < q.len() implies T::le(
        #[trigger] q[i],
        #[trigger] q[j],
    ) by {
        T::le_total(e, e);
        if i < p && j == p {
            T::le_total(e, r[i]);
        }
        if i == p && j > p {
            T::le_transitive(e, r[p], r[j - 1]);
        }
    }
    assert(s.skip(k).drop_first() =~= s.skip(k + 1));
    assert(s.skip(k)[0] == e);
    assert forall|x: T| #[trigger] ties(q, x) == ties(s.skip(k), x) by {
        lemma_ties_insert(r, p, e, x);
        assert(ties(r, x) == ties(s.skip(k + 1), x));
        assert(Seq::<T>::empty() + ties(r, x) =~= ties(r, x));
    }
    lemma_multiset_insert(r, p, e);
    assert(s.skip(k) =~= s.skip(k + 1).insert(0, e));
    lemma_multiset_insert(s.skip(k + 1), 0, e);
}

/// Sorts the values in ascending order; values of the same rank keep their order.
pub fn sort<T: Ranked>(values: Vec<T>) -> (r: Vec<T>)
    ensures
        sorted_from(r@, values@),
        r@ == arranged(values@),
{
    let ghost s = values@;
    let mut rest = values;
    let mut r: Vec<T> = Vec::new();
    assert(s.skip(s.len() as int) =~= Seq::<T>::empty());
    while rest.len() > 0
        invariant
            rest@.len() <= s.len(),
            rest@ == s.take(rest@.len() as int),
            sorted_from(r@, s.skip(rest@.len() as int)),
        decreases rest@.len(),
    {
        let ghost k = rest@.len() - 1;
        match rest.pop() {
            Some(e) => {
                let mut p: usize = 0;
                while p < r.len() && !e.is_le(&r[p])
                    invariant
                        p <= r@.len(),
                        forall|i: int| 0 <= i < p ==> !T::le(e, #[trigger] r@[i]),
                    decreases r@.len() - p,
                {
                    p = p + 1;
                }
                assert(e == s[k]);
                proof {
                    lemma_sorted_insert(r@, s, k, p as int);
                }
                r.insert(p, e);
                assert(rest@ =~= s.take(k));
            },
            None => {},
        }
    }
    assert(s.skip(0) =~= s);
    proof {
        sort_is_unique(r@, arranged(s), s);
    }
    r
}

proof fn lemma_place<T: Ranked>(r: Seq<T>, e: T) -> (p: int)
    ensures
        0 <= p <= r.len(),
        forall|i: int| 0 <= i < p ==> !T::le(e, #[trigger] r[i]),
        p < r.len() ==> T::le(e, r[p]),
    decreases r.len(),
{
    if r.len() == 0 || T::le(e, r[0]) {
        0
    } else {
        let rest = r.drop_first();
        let p = lemma_place(rest, e) + 1;
        assert forall|i: int| 0 <= i < p implies !T::le(e, #[trigger] r[i]) by {
            if i > 0 {
                assert(r[i] == rest[i - 1]);
            }
        }
        p
    }
}

proof fn lemma_sortable<T: Ranked>(s: Seq<T>, k: int)
    requires
        0 <= k <= s.len(),
    ensures
        exists|r: Seq<T>| sorted_from(r, s.skip(k)),
    decreases s.len() - k,
{
    if k == s.len() {
        assert(s.skip(k) =~= Seq::<T>::empty());
        assert(sorted_from(Seq::<T>::empty(), s.skip(k)));
    } else {
        lemma_sortable(s, k + 1);
        let rest = s.skip(k + 1);
        let r = choose|r: Seq<T>| sorted_from(r, rest);
        let p = lemma_place(r, s[k]);
        lemma_sorted_insert(r, s, k, p);
        assert(sorted_from(r.insert(p, s[k]), s.skip(k)));
    }
}

/// Every list can be sorted.
pub proof fn every_list_can_be_sorted<T: Ranked>(s: Seq<T>)
    ensures
        sorted_from(arranged(s), s),
{
    lemma_sortable(s, 0);
    assert(s.skip(0) =~= s);
}

/// A sorted list has the values of the list, and no others.
pub proof fn sorting_keeps_values<T: Ranked>(s: Seq<T>, x: T)
    ensures
        arranged(s).len() == s.len(),
        arranged(s).contains(x) <==> s.contains(x),
{
    broadcast use vstd::seq_lib::group_to_multiset_ensures;

    every_list_can_be_sorted(s);
    assert(arranged(s).len() == arranged(s).to_multiset().len());
    assert(s.len() == s.to_multiset().len());
    assert(arranged(s).contains(x) <==> arranged(s).to_multiset().count(x) > 0);
    assert(s.contains(x) <==> s.to_multiset().count(x) > 0);
}

/// A sort has one outcome: two ascending arrangements of the same values that
/// both keep the order within a rank are the same sequence.
pub proof fn sort_is_unique<T: Ranked>(r: Seq<T>, q: Seq<T>, s: Seq<T>)
    requires
        sorted_from(r, s),
        sorted_from(q, s),
    ensures
        r == q,
{
    lemma_same_ties(r, q);
}

proof fn lemma_same_ties<T: Ranked>(r: Seq<T>, q: Seq<T>)
    requires
        ascending(r),
        ascending(q),
        forall|x: T| #[trigger] ties(r, x) == ties(q, x),
    ensures
        r == q,
    decreases r.len(),
{
    if r.len() == 0 {
        if q.len() > 0 {
            T::le_total(q[0], q[0]);
            assert(ties(r, q[0]) == ties(q, q[0]));
            assert(false);
        }
        assert(r =~= q);
    } else {
        T::le_total(r[0], r[0]);
        assert(ties(r, r[0]) == ties(q, r[0]));
        assert(ties(r, r[0])[0] == r[0]);
        if q.len() == 0 {
            assert(false);
        }
        T::le_total(q[0], q[0]);
        assert(ties(r, q[0]) == ties(q, q[0]));
        assert(ties(q, q[0])[0] == q[0]);
        lemma_tie_is_member(r, q[0]);
        lemma_tie_is_member(q, r[0]);
        let i = choose|i: int| 0 <= i < r.len() && tied(#[trigger] r[i], q[0]);
        let j = choose|j: int| 0 <= j < q.len() && tied(#[trigger] q[j], r[0]);
        T::le_transitive(r[0], r[i], q[0]);
        T::le_transitive(q[0], q[j], r[0]);
        assert(tied(r[0], q[0]));
        assert(q[0] == ties(q, r[0])[0]);
        assert(r[0] == q[0]);
        let rt = r.drop_first();
        let qt = q.drop_first();
        assert forall|x: T| #[trigger] ties(rt, x) == ties(qt, x) by {
            assert(ties(r, x) == ties(q, x));
            if tied(r[0], x) {
                assert(ties(rt, x) =~= ties(r, x).drop_first());
                assert(ties(qt, x) =~= ties(q, x).drop_first());
            }
        }
        assert(ascending(rt)) by {
            assert forall|i: int, j: int| 0 <= i <= j < rt.len() implies T::le(
                #[trigger] rt[i],
                #[trigger] rt[j],
            ) by {
                assert(T::le(r[i + 1], r[j + 1]));
            }
        }
        assert(ascending(qt)) by {
            assert forall|i: int, j: int| 0 <= i <= j < qt.len() implies T::le(
                #[trigger] qt[i],
                #[trigger] qt[j],
            ) by {
                assert(T::le(q[i + 1], q[j + 1]));
            }
        }
        lemma_same_ties(rt, qt);
        assert(r =~= seq![r[0]] + rt);
        assert(q =~= seq![q[0]] + qt);
    }
}

proof fn lemma_tie_is_member<T: Ranked>(s: Seq<T>, x: T)
    requires
        ties(s, x).len() > 0,
    ensures
        exists|i: int| 0 <= i < s.len() && tied(#[trigger] s[i], x),
    decreases s.len(),
{
    if tied(s[0], x) {
    } else {
        lemma_tie_is_member(s.drop_first(), x);
        let i = choose|i: int|
            0 <= i < s.drop_first().len() && tied(#[trigger] s.drop_first()[i], x);
        assert(s[i + 1] == s.drop_first()[i]);
    }
}

/// In a sorted list every value may stand before those that follow it.
pub proof fn sorted_lists_ascend<T: Ranked>(s: Seq<T>, i: int, j: int)
    requires
        0 <= i < j < s.len(),
    ensures
        arranged(s).len() == s.len(),
        T::le(arranged(s)[i], arranged(s)[j]),
{
    every_list_can_be_sorted(s);
    sorting_keeps_values(s, s[i]);
}

/// Of two values with the same rank the one that stood first still does.
pub proof fn sorting_keeps_the_order_of_ties<T: Ranked>(s: Seq<T>, i: int, j: int)
    requires
        0 <= i < j < s.len(),
        T::le(s[i], s[j]),
        T::le(s[j], s[i]),
    ensures
        exists|a: int, b: int|
            0 <= a < b < arranged(s).len() && #[trigger] arranged(s)[a] == s[i]
                && #[trigger] arranged(s)[b] == s[j],
{
    let x = s[i];
    T::le_total(x, x);
    every_list_can_be_sorted(s);
    assert(ties(arranged(s), x) == ties(s, x));
    lemma_ties_in_order(s, x, i, j);
    let t = ties(s, x);
    let (a, b) = choose|a: int, b: int|
        0 <= a < b < t.len() && #[trigger] t[a] == s[i] && #[trigger] t[b] == s[j];
    lemma_ties_from_order(arranged(s), x, a, b);
}

proof fn lemma_tie_in<T: Ranked>(s: Seq<T>, x: T, i: int)
    requires
        0 <= i < s.len(),
        tied(s[i], x),
    ensures
        ties(s, x).contains(s[i]),
    decreases s.len(),
{
    let rest = s.drop_first();
    let t = ties(s, x);
    if i == 0 {
        assert(t[0] == s[0]);
    } else {
        assert(rest[i - 1] == s[i]);
        lemma_tie_in(rest, x, i - 1);
        let m = choose|m: int| 0 <= m < ties(rest, x).len() && ties(rest, x)[m] == s[i];
        if tied(s[0], x) {
            assert(t[m + 1] == s[i]);
        } else {
            assert(t[m] == s[i]);
        }
    }
}

proof fn lemma_ties_in_order<T: Ranked>(s: Seq<T>, x: T, i: int, j: int)
    requires
        0 <= i < j < s.len(),
        tied(s[i], x),
        tied(s[j], x),
    ensures
        ({
            let t = ties(s, x);
            exists|a: int, b: int|
                0 <= a < b < t.len() && #[trigger] t[a] == s[i] && #[trigger] t[b] == s[j]
        }),
    decreases s.len(),
{
    let rest = s.drop_first();
    let t = ties(s, x);
    let u = ties(rest, x);
    assert(rest[j - 1] == s[j]);
    if i == 0 {
        lemma_tie_in(rest, x, j - 1);
        let m = choose|m: int| 0 <= m < u.len() && u[m] == s[j];
        assert(t[0] == s[0]);
        assert(t[m + 1] == s[j]);
    } else {
        assert(rest[i - 1] == s[i]);
        lemma_ties_in_order(rest, x, i - 1, j - 1);
        let (a, b) = choose|a: int, b: int|
            0 <= a < b < u.len() && #[trigger] u[a] == s[i] && #[trigger] u[b] == s[j];
        if tied(s[0], x) {
            assert(t[a + 1] == s[i] && t[b + 1] == s[j]);
        } else {
            assert(t[a] == s[i] && t[b] == s[j]);
        }
    }
}

proof fn lemma_tie_from<T: Ranked>(s: Seq<T>, x: T, a: int)
    requires
        0 <= a < ties(s, x).len(),
    ensures
        s.contains(ties(s, x)[a]),
    decreases s.len(),
{
    let rest = s.drop_first();
    let u = ties(rest, x);
    if tied(s[0], x) && a == 0 {
        assert(ties(s, x)[0] == s[0]);
    } else {
        let m = if tied(s[0], x) {
            a - 1
        } else {
            a
        };
        assert(ties(s, x)[a] == u[m]);
        lemma_tie_from(rest, x, m);
        let p = choose|p: int| 0 <= p < rest.len() && rest[p] == u[m];
        assert(s[p + 1] == u[m]);
    }
}

proof fn lemma_ties_from_order<T: Ranked>(s: Seq<T>, x: T, a: int, b: int)
    requires
        0 <= a < b < ties(s, x).len(),
    ensures
        exists|p: int, q: int|
            0 <= p < q < s.len() && #[trigger] s[p] == ties(s, x)[a] && #[trigger] s[q] == ties(
                s,
                x,
            )[b],
    decreases s.len(),
{
    let rest = s.drop_first();
    let u = ties(rest, x);
    if tied(s[0], x) && a == 0 {
        assert(ties(s, x)[0] == s[0]);
        assert(ties(s, x)[b] == u[b - 1]);
        lemma_tie_from(rest, x, b - 1);
        let q = choose|q: int| 0 <= q < rest.len() && rest[q] == u[b - 1];
        assert(s[q + 1] == u[b - 1]);
        assert(s[0] == ties(s, x)[a]);
    } else {
        let d: int = if tied(s[0], x) {
            1
        } else {
            0
        };
        assert(ties(s, x)[a] == u[a - d]);
        assert(ties(s, x)[b] == u[b - d]);
        lemma_ties_from_order(rest, x, a - d, b - d);
        let (p, q) = choose|p: int, q: int|
            0 <= p < q < rest.len() && #[trigger] rest[p] == u[a - d] && #[trigger] rest[q]
                == u[b - d];
        assert(s[p + 1] == rest[p]);
        assert(s[q + 1] == rest[q]);
    }
}

/// The last of the values of one rank is the last of them after sorting, and no value that
/// may stand before it follows it.
pub proof fn the_last_tie_stays_last<T: Ranked>(s: Seq<T>, i: int) -> (a: int)
    requires
        0 <= i < s.len(),
        forall|j: int| i < j < s.len() ==> !tied(#[trigger] s[j], s[i]),
    ensures
        0 <= a < arranged(s).len(),
        arranged(s)[a] == s[i],
        forall|m: int| a < m < arranged(s).len() ==> !T::le(#[trigger] arranged(s)[m], s[i]),
{
    let x = s[i];
    let r = arranged(s);
    T::le_total(x, x);
    every_list_can_be_sorted(s);
    sorting_keeps_values(s, x);
    assert(ties(r, x) == ties(s, x));
    lemma_last_tie(s, x, i);
    assert(s.contains(x));
    let k = choose|k: int| 0 <= k < r.len() && r[k] == x;
    let a = lemma_last_tied_index(r, x, k);
    lemma_last_tie(r, x, a);
    assert forall|m: int| a < m < r.len() implies !T::le(#[trigger] r[m], x) by {
        assert(T::le(r[a], r[m]));
        assert(!tied(r[m], x));
    }
    a
}

proof fn lemma_last_tied_index<T: Ranked>(s: Seq<T>, x: T, k: int) -> (a: int)
    requires
        0 <= k < s.len(),
        tied(s[k], x),
    ensures
        k <= a < s.len(),
        tied(s[a], x),
        forall|m: int| a < m < s.len() ==> !tied(#[trigger] s[m], x),
    decreases s.len() - k,
{
    if exists|m: int| k < m < s.len() && tied(#[trigger] s[m], x) {
        let m = choose|m: int| k < m < s.len() && tied(#[trigger] s[m], x);
        lemma_last_tied_index(s, x, m)
    } else {
        k
    }
}

proof fn lemma_last_tie<T: Ranked>(s: Seq<T>, x: T, i: int)
    requires
        0 <= i < s.len(),
        tied(s[i], x),
        forall|j: int| i < j < s.len() ==> !tied(#[trigger] s[j], x),
    ensures
        ties(s, x).len() > 0,
        ties(s, x).last() == s[i],
    decreases s.len(),
{
    let rest = s.drop_first();
    assert forall|j: int| 0 <= j < rest.len() implies #[trigger] rest[j] == s[j + 1] by {}
    if i > 0 {
        lemma_last_tie(rest, x, i - 1);
    } else {
        assert forall|j: int| 0 <= j < rest.len() implies !tied(#[trigger] rest[j], x) by {
            assert(!tied(s[j + 1], x));
        }
        if ties(rest, x).len() > 0 {
            lemma_tie_is_member(rest, x);
        }
    }
}

} // verus!
