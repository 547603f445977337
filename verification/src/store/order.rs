//! What a total order means, in the two relations that the stores use.

use std::cmp::Ordering;
use vstd::laws_cmp::obeys_cmp;
use vstd::prelude::*;
use vstd::std_specs::cmp::{OrdSpec, PartialEqSpec, PartialOrdSpec};

verus! {

/// The type's `Ord` is a total order that agrees with its `Eq`.
pub open spec fn lawful_order<T: Ord>() -> bool {
    obeys_cmp::<T>()
}

/// The type's `Clone` gives back an equal value.
pub open spec fn lawful_clone<T: Clone>() -> bool {
    forall|a: T, b: T| #[trigger] cloned(a, b) ==> a == b
}

/// `a` stands strictly before `b`.
pub open spec fn less<T: Ord>(a: T, b: T) -> bool {
    a.cmp_spec(&b) is Less
}

/// Neither value stands before the other.
pub open spec fn alike<T: Ord>(a: T, b: T) -> bool {
    a.cmp_spec(&b) is Equal
}

/// Each value stands strictly before all that follow it.
pub open spec fn increasing<T: Ord>(s: Seq<T>) -> bool {
    forall|i: int, j: int| #![trigger s[i], s[j]] 0 <= i < j < s.len() ==> less(s[i], s[j])
}

/// The three ways in which two values of a total order can stand.
pub proof fn lemma_order<T: Ord>(a: T, b: T)
    requires
        lawful_order::<T>(),
    ensures
        less(a, b) || alike(a, b) || less(b, a),
        less(a, b) ==> !alike(a, b) && !less(b, a) && !alike(b, a),
        alike(a, b) ==> alike(b, a) && !less(b, a),
        a == b ==> !less(a, b),
{
    reveal(vstd::laws_eq::obeys_eq_spec_properties);
    reveal(vstd::laws_cmp::obeys_partial_cmp_spec_properties);
    reveal(vstd::laws_cmp::obeys_cmp_partial_ord);
    reveal(vstd::laws_cmp::obeys_cmp_ord);
    assert(a.partial_cmp_spec(&b) == Some(a.cmp_spec(&b)));
    assert(b.partial_cmp_spec(&a) == Some(b.cmp_spec(&a)));
    assert(a.eq_spec(&b) <==> b.eq_spec(&a));
}

/// Standing before is transitive.
pub proof fn lemma_less_transitive<T: Ord>(a: T, b: T, c: T)
    requires
        lawful_order::<T>(),
        less(a, b),
        less(b, c),
    ensures
        less(a, c),
{
    reveal(vstd::laws_cmp::obeys_partial_cmp_spec_properties);
    reveal(vstd::laws_cmp::obeys_cmp_ord);
    assert(a.partial_cmp_spec(&b) == Some(a.cmp_spec(&b)));
    assert(b.partial_cmp_spec(&c) == Some(b.cmp_spec(&c)));
    assert(a.partial_cmp_spec(&c) == Some(a.cmp_spec(&c)));
}

/// Alike values stand to others in the same way.
pub proof fn lemma_alike<T: Ord>(a: T, b: T, c: T)
    requires
        lawful_order::<T>(),
        alike(a, b),
    ensures
        less(a, c) <==> less(b, c),
        less(c, a) <==> less(c, b),
        alike(a, c) <==> alike(b, c),
{
    reveal(vstd::laws_eq::obeys_eq_spec_properties);
    reveal(vstd::laws_cmp::obeys_partial_cmp_spec_properties);
    reveal(vstd::laws_cmp::obeys_cmp_partial_ord);
    reveal(vstd::laws_cmp::obeys_cmp_ord);
    assert(a.partial_cmp_spec(&b) == Some(a.cmp_spec(&b)));
    assert(a.partial_cmp_spec(&c) == Some(a.cmp_spec(&c)));
    assert(b.partial_cmp_spec(&c) == Some(b.cmp_spec(&c)));
    lemma_order(a, c);
    lemma_order(b, c);
    lemma_order(a, b);
    assert(a.eq_spec(&b) && b.eq_spec(&a));
    if alike(a, c) {
        assert(b.eq_spec(&c));
    }
    if alike(b, c) {
        assert(a.eq_spec(&c));
    }
    if less(a, c) && less(c, b) {
        lemma_less_transitive(a, c, b);
    }
    if less(b, c) && less(c, a) {
        lemma_less_transitive(b, c, a);
    }
}

/// Returns whether `a` stands strictly before `b`.
pub fn is_less<T: Ord>(a: &T, b: &T) -> (out: bool)
    requires
        lawful_order::<T>(),
    ensures
        out == less(*a, *b),
{
    proof { reveal(vstd::laws_cmp::obeys_cmp_ord); }
    matches!(a.cmp(b), Ordering::Less)
}

} // verus!
