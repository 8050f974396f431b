//! The table as mathematics: a sequence of slots, one per bucket, and what
//! assigning a value to a bucket does to it.

use crate::order::{at_most, order_is_specified, smaller};
use vstd::prelude::*;

verus! {

/// A table of `size` slots that all hold `init`.
pub open spec fn filled<V>(init: V, size: nat) -> Seq<V> {
    Seq::new(size, |i: int| init)
}

/// The bucket that a key with hash `digest` falls into, in a table of
/// `size` slots.
pub open spec fn bucket_of(digest: u64, size: usize) -> int {
    ((digest as usize) % size) as int
}

/// `slots` after `value` was assigned to `bucket`: that slot keeps the
/// smaller of its value and `value`, every other slot is untouched.
pub open spec fn merged<V: Ord>(slots: Seq<V>, bucket: int, value: V) -> Seq<V> {
    slots.update(bucket, smaller(slots[bucket], value))
}

/// Whether `after` is `before` with `value` assigned to `bucket`. Only that
/// slot may differ; where the order on `V` is specified, it holds the
/// smaller of its former value and `value`.
pub open spec fn assigned<V: Ord>(before: Seq<V>, after: Seq<V>, bucket: int, value: V) -> bool {
    &&& after == before.update(bucket, after[bucket])
    &&& order_is_specified::<V>() ==> after == merged(before, bucket, value)
}

/// `slots` after the assignments `sets` were made one after the other, each
/// a bucket and a value.
pub open spec fn merged_all<V: Ord>(slots: Seq<V>, sets: Seq<(int, V)>) -> Seq<V>
    decreases sets.len(),
{
    if sets.len() == 0 {
        slots
    } else {
        let last = sets.last();
        merged(merged_all(slots, sets.drop_last()), last.0, last.1)
    }
}

/// Whether every assignment in `sets` names a bucket of a table of `size`
/// slots.
pub open spec fn in_range<V>(sets: Seq<(int, V)>, size: nat) -> bool {
    forall|i: int| 0 <= i < sets.len() ==> 0 <= (#[trigger] sets[i]).0 < size
}

/// Whether `value` is the least of `start` and the values that `sets`
/// assigns to `bucket`: it is one of them, and comes after none of them.
pub open spec fn least_for<V: Ord>(value: V, start: V, sets: Seq<(int, V)>, bucket: int) -> bool {
    &&& value == start || sets.contains((bucket, value))
    &&& at_most(value, start)
    &&& forall|i: int|
        0 <= i < sets.len() && (#[trigger] sets[i]).0 == bucket ==> at_most(value, sets[i].1)
}

} // verus!
