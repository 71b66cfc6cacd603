//! A deterministic, stable sort in specification form: elements are inserted
//! one by one, each landing after every element it does not precede. The
//! executable sorts in this crate are proved equal to it, so a sorted list's
//! exact order — ties included — is pinned down by the contract.

use vstd::prelude::*;

verus! {

/// Insert `e` into `s` after every element `x` with `leq(x, e)`.
pub open spec fn insert_stable<T>(s: Seq<T>, e: T, leq: spec_fn(T, T) -> bool) -> Seq<T>
    decreases s.len(),
{
    if s.len() == 0 {
        seq![e]
    } else if !leq(s[0], e) {
        seq![e] + s
    } else {
        seq![s[0]] + insert_stable(s.drop_first(), e, leq)
    }
}

/// The stable sort of `s` under `leq`: fold the elements in, left to right.
pub open spec fn stable_sort<T>(s: Seq<T>, leq: spec_fn(T, T) -> bool) -> Seq<T>
    decreases s.len(),
{
    if s.len() == 0 {
        Seq::empty()
    } else {
        insert_stable(stable_sort(s.drop_last(), leq), s.last(), leq)
    }
}

/// Whether `s` is sorted under `leq`.
pub open spec fn sorted_by<T>(s: Seq<T>, leq: spec_fn(T, T) -> bool) -> bool {
    forall|i: int, j: int| 0 <= i < j < s.len() ==> leq(s[i], s[j])
}

/// Inserting into a sorted list keeps it sorted (for a total `leq`), adds the
/// element to the multiset, and grows the length by one.
pub proof fn lemma_insert_stable_ensures<T>(s: Seq<T>, e: T, leq: spec_fn(T, T) -> bool)
    requires
        sorted_by(s, leq),
        forall|a: T, b: T| #[trigger] leq(a, b) || leq(b, a),
        forall|a: T, b: T, c: T| #[trigger] leq(a, b) && #[trigger] leq(b, c) ==> leq(a, c),
    ensures
        sorted_by(insert_stable(s, e, leq), leq),
        insert_stable(s, e, leq).to_multiset() == s.to_multiset().insert(e),
        insert_stable(s, e, leq).len() == s.len() + 1,
    decreases s.len(),
{
    broadcast use vstd::seq_lib::group_to_multiset_ensures;

    let r = insert_stable(s, e, leq);
    if s.len() == 0 {
        assert(r =~= Seq::empty().push(e));
        assert(r.to_multiset() =~= s.to_multiset().insert(e));
    } else if !leq(s[0], e) {
        assert(r == seq![e] + s);
        assert(leq(e, s[0]));
        assert forall|i: int, j: int| 0 <= i < j < r.len() implies leq(r[i], r[j]) by {
            if i == 0 && j >= 1 {
                assert(r[j] == s[j - 1]);
                if j == 1 {
                } else {
                    assert(leq(s[0], s[j - 1]));
                }
            }
        }
        assert(r =~= s.insert(0, e));
        vstd::seq_lib::to_multiset_insert::<T>(s, 0, e);
    } else {
        let d = s.drop_first();
        assert(forall|i: int| 0 <= i < d.len() ==> d[i] == s[i + 1]);
        lemma_insert_stable_ensures(d, e, leq);
        let rd = insert_stable(d, e, leq);
        assert(r == seq![s[0]] + rd);
        // The head precedes everything that follows it: either an original
        // element of the tail, or the inserted one.
        assert forall|i: int, j: int| 0 <= i < j < r.len() implies leq(r[i], r[j]) by {
            if i >= 1 {
                assert(leq(rd[i - 1], rd[j - 1]));
            } else {
                assert(r[j] == rd[j - 1]);
                assert(rd.to_multiset() == d.to_multiset().insert(e));
                vstd::seq_lib::to_multiset_contains::<T>(rd, rd[j - 1]);
                assert(rd.contains(rd[j - 1]));
                assert(rd.to_multiset().count(rd[j - 1]) > 0);
                if rd[j - 1] == e {
                    assert(leq(s[0], e));
                } else {
                    assert(d.to_multiset().count(rd[j - 1]) > 0) by {
                        assert(d.to_multiset().insert(e).count(rd[j - 1]) > 0);
                    }
                    vstd::seq_lib::to_multiset_contains::<T>(d, rd[j - 1]);
                    assert(d.contains(rd[j - 1]));
                    let w = choose|w: int| 0 <= w < d.len() && d[w] == rd[j - 1];
                    assert(leq(s[0], s[w + 1]));
                }
            }
        }
        assert(r.to_multiset() =~= s.to_multiset().insert(e)) by {
            assert(s =~= seq![s[0]] + d);
            vstd::seq_lib::lemma_multiset_commutative(seq![s[0]], d);
            vstd::seq_lib::lemma_multiset_commutative(seq![s[0]], rd);
        }
    }
}

/// The stable sort is sorted, keeps exactly the original elements, and keeps
/// the length.
pub proof fn lemma_stable_sort_ensures<T>(s: Seq<T>, leq: spec_fn(T, T) -> bool)
    requires
        forall|a: T, b: T| #[trigger] leq(a, b) || leq(b, a),
        forall|a: T, b: T, c: T| #[trigger] leq(a, b) && #[trigger] leq(b, c) ==> leq(a, c),
    ensures
        sorted_by(stable_sort(s, leq), leq),
        stable_sort(s, leq).to_multiset() == s.to_multiset(),
        stable_sort(s, leq).len() == s.len(),
    decreases s.len(),
{
    broadcast use vstd::seq_lib::group_to_multiset_ensures;

    if s.len() == 0 {
        assert(stable_sort(s, leq).to_multiset() =~= s.to_multiset());
    } else {
        let d = s.drop_last();
        lemma_stable_sort_ensures(d, leq);
        lemma_insert_stable_ensures(stable_sort(d, leq), s.last(), leq);
        assert(s =~= d.push(s.last()));
        assert(s.to_multiset() == d.to_multiset().insert(s.last()));
    }
}

/// Inserting at the position the in-place sort finds — after every element at
/// or below the new one, before the first above it — is exactly the stable
/// insertion.
pub proof fn lemma_insert_at_found_position<T>(
    s: Seq<T>,
    e: T,
    leq: spec_fn(T, T) -> bool,
    j: int,
)
    requires
        sorted_by(s, leq),
        0 <= j <= s.len(),
        forall|k: int| 0 <= k < j ==> leq(#[trigger] s[k], e),
        j < s.len() ==> !leq(s[j], e),
    ensures
        s.insert(j, e) == insert_stable(s, e, leq),
    decreases s.len(),
{
    if s.len() == 0 {
        assert(s.insert(0, e) =~= seq![e]);
    } else if !leq(s[0], e) {
        assert(j == 0);
        assert(s.insert(0, e) =~= seq![e] + s);
    } else {
        assert(j >= 1);
        let d = s.drop_first();
        assert(forall|i: int| 0 <= i < d.len() ==> d[i] == s[i + 1]);
        lemma_insert_at_found_position(d, e, leq, j - 1);
        assert(s.insert(j, e) =~= seq![s[0]] + d.insert(j - 1, e));
    }
}

} // verus!
