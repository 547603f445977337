//! What holds of snapshots of register values.

use vstd::prelude::*;

use crate::store::mvreg::{canonical_values, first_of_kind, represented};
use crate::store::order::{alike, increasing, lawful_order, lemma_alike, lemma_order, less};

verus! {

/// The last values of two increasing lists that represent each other are alike.
proof fn lemma_ends_alike<T: Ord>(a: Seq<T>, b: Seq<T>)
    requires
        lawful_order::<T>(),
        increasing(a),
        increasing(b),
        a.len() > 0,
        b.len() > 0,
        represented(b, a.last()),
        represented(a, b.last()),
    ensures
        alike(a.last(), b.last()),
{
    reveal(represented);
    let from = a.len() - 1;
    let to = b.len() - 1;
    let j = choose|j: int| #![trigger b[j]] 0 <= j < b.len() && alike(b[j], a[from]);
    let i = choose|i: int| #![trigger a[i]] 0 <= i < a.len() && alike(a[i], b[to]);
    lemma_order(b[j], a[from]);
    if j < to {
        assert(less(b[j], b[to]));
        lemma_alike(b[j], a[from], b[to]);
        lemma_alike(a[i], b[to], a[from]);
        assert(less(a[from], a[i]));
        if i < from {
            assert(less(a[i], a[from]));
        }
        lemma_order(a[i], a[from]);
        lemma_order(a[from], a[from]);
    }
}

/// Without the last values, which are alike, two lists still represent each other.
proof fn lemma_shorter_represented<T: Ord>(a: Seq<T>, b: Seq<T>)
    requires
        lawful_order::<T>(),
        increasing(a),
        a.len() > 0,
        b.len() > 0,
        alike(b.last(), a.last()),
        forall|i: int| #![trigger a[i]] 0 <= i < a.len() ==> represented(b, a[i]),
    ensures
        forall|i: int|
            #![trigger a.drop_last()[i]]
            0 <= i < a.len() - 1 ==> represented(b.drop_last(), a.drop_last()[i]),
{
    reveal(represented);
    let shorter = b.drop_last();
    let end = a.len() - 1;
    assert forall|i: int| #![trigger a.drop_last()[i]] 0 <= i < end implies represented(
        shorter,
        a.drop_last()[i],
    ) by {
        assert(represented(b, a[i]));
        let j = choose|j: int| #![trigger b[j]] 0 <= j < b.len() && alike(b[j], a[i]);
        if j == b.len() - 1 {
            lemma_alike(b[j], a[i], a[end]);
            assert(less(a[i], a[end]));
            lemma_order(a[i], a[end]);
        }
        assert(shorter[j] == b[j]);
    }
}

/// Two increasing lists that represent each other hold the same kinds, place by place.
proof fn lemma_same_kinds<T: Ord>(a: Seq<T>, b: Seq<T>)
    requires
        lawful_order::<T>(),
        increasing(a),
        increasing(b),
        forall|i: int| #![trigger a[i]] 0 <= i < a.len() ==> represented(b, a[i]),
        forall|i: int| #![trigger b[i]] 0 <= i < b.len() ==> represented(a, b[i]),
    ensures
        a.len() == b.len(),
        forall|i: int| #![trigger a[i]] 0 <= i < a.len() ==> alike(a[i], b[i]),
    decreases a.len(),
{
    if a.len() == 0 || b.len() == 0 {
        reveal(represented);
        if a.len() > 0 {
            assert(represented(b, a[0]));
        }
        if b.len() > 0 {
            assert(represented(a, b[0]));
        }
    } else {
        let from = a.len() - 1;
        let to = b.len() - 1;
        assert(represented(b, a[from]) && represented(a, b[to]));
        lemma_ends_alike(a, b);
        lemma_order(a[from], b[to]);
        lemma_shorter_represented(a, b);
        lemma_shorter_represented(b, a);
        lemma_same_kinds(a.drop_last(), b.drop_last());
        assert forall|i: int| #![trigger a[i]] 0 <= i < a.len() implies alike(a[i], b[i]) by {
            if i < from {
                assert(a.drop_last()[i] == a[i] && b.drop_last()[i] == b[i]);
            }
        }
    }
}

/// What a canonical list holds is represented by any other of the same values.
proof fn lemma_represents_other<T: Ord>(a: Seq<T>, s: Seq<T>, b: Seq<T>, t: Seq<T>)
    requires
        canonical_values(a, s),
        canonical_values(b, t),
        s.to_set() == t.to_set(),
    ensures
        forall|i: int| #![trigger a[i]] 0 <= i < a.len() ==> represented(b, a[i]),
{
    reveal(first_of_kind);
    assert forall|i: int| #![trigger a[i]] 0 <= i < a.len() implies represented(b, a[i]) by {
        assert(first_of_kind(s, a[i]));
        assert(s.contains(a[i]));
        assert(s.to_set().contains(a[i]));
        assert(t.to_set().contains(a[i]));
        let k = choose|k: int| 0 <= k < t.len() && t[k] == a[i];
        assert(represented(b, t[k]));
    }
}

/// One list of values has one snapshot.
pub proof fn law_snapshot_is_unique<T: Ord>(a: Seq<T>, b: Seq<T>, vals: Seq<T>)
    requires
        lawful_order::<T>(),
        canonical_values(a, vals),
        canonical_values(b, vals),
    ensures
        a == b,
{
    lemma_represents_other(a, vals, b, vals);
    lemma_represents_other(b, vals, a, vals);
    lemma_same_kinds(a, b);
    assert forall|i: int| #![trigger a[i]] 0 <= i < a.len() implies a[i] == b[i] by {
        reveal(first_of_kind);
        assert(first_of_kind(vals, a[i]));
        assert(first_of_kind(vals, b[i]));
        let p = choose|p: int|
            #![trigger vals[p]]
            0 <= p < vals.len() && vals[p] == a[i] && forall|k: int|
                #![trigger vals[k]]
                0 <= k < p ==> !alike(vals[k], a[i]);
        let q = choose|q: int|
            #![trigger vals[q]]
            0 <= q < vals.len() && vals[q] == b[i] && forall|k: int|
                #![trigger vals[k]]
                0 <= k < q ==> !alike(vals[k], b[i]);
        lemma_order(a[i], b[i]);
        if p < q {
            assert(!alike(vals[p], b[i]));
        }
        if q < p {
            assert(!alike(vals[q], a[i]));
        }
    }
    assert(a =~= b);
}

/// The same values, in whatever order and however often, give snapshots that are
/// alike place by place; where alike values are the same value, they give the
/// same snapshot.
pub proof fn law_snapshot_ignores_order_and_repetition<T: Ord>(
    a: Seq<T>,
    s: Seq<T>,
    b: Seq<T>,
    t: Seq<T>,
)
    requires
        lawful_order::<T>(),
        canonical_values(a, s),
        canonical_values(b, t),
        s.to_set() == t.to_set(),
    ensures
        a.len() == b.len(),
        forall|i: int| #![trigger a[i]] 0 <= i < a.len() ==> alike(a[i], b[i]),
        (forall|x: T, y: T| #[trigger] alike(x, y) ==> x == y) ==> a == b,
{
    lemma_represents_other(a, s, b, t);
    lemma_represents_other(b, t, a, s);
    lemma_same_kinds(a, b);
    if forall|x: T, y: T| #[trigger] alike(x, y) ==> x == y {
        assert(a =~= b);
    }
}

} // verus!
