//! The order on values, as the rest of the library speaks of it.
//!
//! Values are compared through `Ord`. Its specification is `cmp_spec`; the
//! predicates here give the few notions built on it a name of their own.

use core::cmp::Ordering;
use vstd::laws_cmp::{
    obeys_cmp, obeys_cmp_ord, obeys_cmp_partial_ord, obeys_partial_cmp_spec_properties,
};
use vstd::laws_eq::obeys_concrete_eq;
use vstd::prelude::*;
use vstd::std_specs::cmp::{OrdSpec, PartialEqSpec, PartialOrdSpec};

verus! {

/// `a` comes strictly before `b`.
pub open spec fn precedes<V: Ord>(a: V, b: V) -> bool {
    a.cmp_spec(&b) == Ordering::Less
}

/// `a` does not come after `b`.
pub open spec fn at_most<V: Ord>(a: V, b: V) -> bool {
    !precedes(b, a)
}

/// The minimum of `a` and `b`; `a` where neither comes before the other.
pub open spec fn smaller<V: Ord>(a: V, b: V) -> V {
    if precedes(b, a) {
        b
    } else {
        a
    }
}

/// The comparisons that `V` executes compute `cmp_spec`.
pub open spec fn order_is_specified<V: Ord>() -> bool {
    V::obeys_cmp_spec()
}

/// `cmp_spec` is a total order on `V` in which only identical values are
/// equal.
pub open spec fn total_order<V: Ord>() -> bool {
    &&& forall|a: V, b: V| #[trigger] a.cmp_spec(&b) == Ordering::Equal <==> a == b
    &&& forall|a: V, b: V|
        #[trigger] a.cmp_spec(&b) == Ordering::Less <==> b.cmp_spec(&a) == Ordering::Greater
    &&& forall|a: V, b: V, c: V|
        #[trigger] precedes(a, b) && #[trigger] precedes(b, c) ==> precedes(a, c)
}

/// A type that keeps the laws of comparison and of equality, as every
/// primitive integer type does, is totally ordered, and its comparisons are
/// specified.
pub proof fn lawful_types_are_totally_ordered<V: Ord>()
    requires
        obeys_cmp::<V>(),
        obeys_concrete_eq::<V>(),
    ensures
        total_order::<V>(),
        order_is_specified::<V>(),
{
    reveal(obeys_concrete_eq);
    reveal(obeys_cmp_partial_ord);
    reveal(obeys_cmp_ord);
    reveal(obeys_partial_cmp_spec_properties);
    assert forall|a: V, b: V| #[trigger] a.cmp_spec(&b) == Ordering::Equal <==> a == b by {
        assert(a.partial_cmp_spec(&b) == Some(a.cmp_spec(&b)));
        assert(a.eq_spec(&b) <==> a == b);
    }
    assert forall|a: V, b: V| #[trigger]
        a.cmp_spec(&b) == Ordering::Less <==> b.cmp_spec(&a) == Ordering::Greater by {
        assert(a.partial_cmp_spec(&b) == Some(a.cmp_spec(&b)));
        assert(b.partial_cmp_spec(&a) == Some(b.cmp_spec(&a)));
    }
    assert forall|a: V, b: V, c: V| #[trigger]
        precedes(a, b) && #[trigger] precedes(b, c) implies precedes(a, c) by {
        assert(a.partial_cmp_spec(&b) == Some(a.cmp_spec(&b)));
        assert(b.partial_cmp_spec(&c) == Some(b.cmp_spec(&c)));
        assert(a.partial_cmp_spec(&c) == Some(a.cmp_spec(&c)));
    }
}

/// In a total order, of two values exactly one comes first, unless they are
/// the same value.
pub proof fn order_facts<V: Ord>(a: V, b: V)
    requires
        total_order::<V>(),
    ensures
        precedes(a, b) || precedes(b, a) || a == b,
        !(precedes(a, b) && precedes(b, a)),
        !precedes(a, a),
{
    assert(a.cmp_spec(&a) == Ordering::Equal);
}

/// In a total order, what comes before a value comes before all that the
/// value comes before.
pub proof fn chain_facts<V: Ord>(a: V, b: V, c: V)
    requires
        total_order::<V>(),
    ensures
        precedes(a, b) && precedes(b, c) ==> precedes(a, c),
        at_most(a, b) && at_most(b, c) ==> at_most(a, c),
{
    order_facts(a, b);
    order_facts(b, c);
    order_facts(a, c);
}

} // verus!
