//! What holds of a table whatever is assigned to it, proved over the model.

use crate::model::{filled, in_range, least_for, merged, merged_all};
use crate::order::{at_most, chain_facts, order_facts, smaller, total_order};
use vstd::prelude::*;

verus! {

/// In a total order, taking the smaller of two values does not depend on
/// which is named first, nor on how three values are grouped; the result is
/// one of the two and comes after neither.
pub proof fn smaller_is_a_minimum<V: Ord>(a: V, b: V, c: V)
    requires
        total_order::<V>(),
    ensures
        smaller(a, b) == smaller(b, a),
        smaller(smaller(a, b), c) == smaller(a, smaller(b, c)),
        smaller(a, a) == a,
        smaller(a, b) == a || smaller(a, b) == b,
        at_most(smaller(a, b), a),
        at_most(smaller(a, b), b),
        at_most(a, b) ==> smaller(a, b) == a,
{
    order_facts(a, b);
    order_facts(b, c);
    order_facts(a, c);
}

/// After one assignment to a new table, the bucket assigned to holds the
/// smaller of the initial value and the assigned one, and every other
/// bucket still holds the initial value.
pub proof fn single_update<V: Ord>(init: V, size: nat, bucket: int, value: V)
    requires
        0 <= bucket < size,
    ensures
        merged(filled(init, size), bucket, value)[bucket] == smaller(init, value),
        forall|other: int|
            0 <= other < size && other != bucket ==> merged(
                filled(init, size),
                bucket,
                value,
            )[other] == init,
        merged(filled(init, size), bucket, value).len() == size,
{
}

/// After two assignments to a new table: where both went to one bucket, it
/// holds the smallest of the initial value and the two assigned ones; where
/// they went to two buckets, each holds the smaller of the initial value and
/// the one assigned to it.
pub proof fn collision_merge<V: Ord>(
    init: V,
    size: nat,
    bucket1: int,
    value1: V,
    bucket2: int,
    value2: V,
)
    requires
        total_order::<V>(),
        0 <= bucket1 < size,
        0 <= bucket2 < size,
    ensures
        ({
            let slots = merged(merged(filled(init, size), bucket1, value1), bucket2, value2);
            if bucket1 == bucket2 {
                slots[bucket1] == smaller(init, smaller(value1, value2))
            } else {
                slots[bucket1] == smaller(init, value1) && slots[bucket2] == smaller(init, value2)
            }
        }),
{
    smaller_is_a_minimum(init, value1, value2);
}

/// Two assignments to one bucket, in either order, leave the table as one
/// assignment of the smaller of the two values does.
pub proof fn colliding_sets_merge<V: Ord>(slots: Seq<V>, bucket: int, value1: V, value2: V)
    requires
        total_order::<V>(),
        0 <= bucket < slots.len(),
    ensures
        merged(merged(slots, bucket, value1), bucket, value2) == merged(
            slots,
            bucket,
            smaller(value1, value2),
        ),
        merged(merged(slots, bucket, value2), bucket, value1) == merged(
            slots,
            bucket,
            smaller(value1, value2),
        ),
{
    smaller_is_a_minimum(slots[bucket], value1, value2);
    assert(merged(merged(slots, bucket, value1), bucket, value2) =~= merged(
        slots,
        bucket,
        smaller(value1, value2),
    ));
    assert(merged(merged(slots, bucket, value2), bucket, value1) =~= merged(
        slots,
        bucket,
        smaller(value1, value2),
    ));
}

/// Assigning a value that does not come before what the bucket holds
/// changes nothing.
pub proof fn no_change_above_minimum<V: Ord>(slots: Seq<V>, bucket: int, value: V)
    requires
        total_order::<V>(),
        0 <= bucket < slots.len(),
        at_most(slots[bucket], value),
    ensures
        merged(slots, bucket, value) == slots,
{
    assert(merged(slots, bucket, value) =~= slots);
}

/// Assignments never add or remove a slot.
pub proof fn size_is_fixed<V: Ord>(slots: Seq<V>, sets: Seq<(int, V)>)
    requires
        in_range(sets, slots.len()),
    ensures
        merged_all(slots, sets).len() == slots.len(),
    decreases sets.len(),
{
    if sets.len() > 0 {
        size_is_fixed(slots, sets.drop_last());
    }
}

/// What a bucket holds never goes up: after any run of assignments it holds
/// at most what it held after any shorter run of the same assignments.
pub proof fn monotonic<V: Ord>(slots: Seq<V>, sets: Seq<(int, V)>, shorter: int, bucket: int)
    requires
        total_order::<V>(),
        in_range(sets, slots.len()),
        0 <= shorter <= sets.len(),
        0 <= bucket < slots.len(),
    ensures
        at_most(merged_all(slots, sets)[bucket], merged_all(slots, sets.take(shorter))[bucket]),
    decreases sets.len(),
{
    if shorter == sets.len() {
        assert(sets.take(shorter) =~= sets);
        order_facts(merged_all(slots, sets)[bucket], merged_all(slots, sets)[bucket]);
    } else {
        let before = sets.drop_last();
        assert(before.take(shorter) =~= sets.take(shorter));
        monotonic(slots, before, shorter, bucket);
        size_is_fixed(slots, before);
        let held = merged_all(slots, before);
        chain_facts(
            merged_all(slots, sets)[bucket],
            held[bucket],
            merged_all(slots, sets.take(shorter))[bucket],
        );
    }
}

/// Whatever is assigned to a new table, no bucket ever holds more than the
/// initial value.
pub proof fn never_exceeds_init<V: Ord>(init: V, size: nat, sets: Seq<(int, V)>, bucket: int)
    requires
        total_order::<V>(),
        in_range(sets, size),
        0 <= bucket < size,
    ensures
        at_most(merged_all(filled(init, size), sets)[bucket], init),
{
    monotonic(filled(init, size), sets, 0, bucket);
}

/// After any run of assignments a bucket holds the least of what it held
/// before and the values assigned to it.
pub proof fn holds_the_least<V: Ord>(slots: Seq<V>, sets: Seq<(int, V)>, bucket: int)
    requires
        total_order::<V>(),
        in_range(sets, slots.len()),
        0 <= bucket < slots.len(),
    ensures
        least_for(merged_all(slots, sets)[bucket], slots[bucket], sets, bucket),
    decreases sets.len(),
{
    if sets.len() == 0 {
        order_facts(slots[bucket], slots[bucket]);
    } else {
        let before = sets.drop_last();
        let last = sets.last();
        let held = merged_all(slots, before);
        let now = merged_all(slots, sets)[bucket];
        holds_the_least(slots, before, bucket);
        size_is_fixed(slots, before);
        smaller_is_a_minimum(held[last.0], last.1, last.1);
        if held[bucket] != slots[bucket] {
            let i = choose|i: int| 0 <= i < before.len() && before[i] == (bucket, held[bucket]);
            assert(sets[i] == (bucket, held[bucket]));
        }
        chain_facts(now, held[bucket], slots[bucket]);
        assert forall|i: int|
            0 <= i < sets.len() && (#[trigger] sets[i]).0 == bucket implies at_most(
            now,
            sets[i].1,
        ) by {
            if i < before.len() {
                assert(before[i] == sets[i]);
                chain_facts(now, held[bucket], sets[i].1);
            }
        }
    }
}

/// The least of a bucket's values is the same for two runs of assignments
/// that hold the same assignments, however often and in whatever order.
pub proof fn least_is_unique<V: Ord>(
    one: V,
    other: V,
    start: V,
    first: Seq<(int, V)>,
    second: Seq<(int, V)>,
    bucket: int,
)
    requires
        total_order::<V>(),
        forall|set: (int, V)| first.contains(set) <==> second.contains(set),
        least_for(one, start, first, bucket),
        least_for(other, start, second, bucket),
    ensures
        one == other,
{
}

/// The table that a run of assignments leaves depends only on which
/// assignments were made, not on their order nor on how often each was made.
pub proof fn repeats_and_order_do_not_matter<V: Ord>(
    slots: Seq<V>,
    first: Seq<(int, V)>,
    second: Seq<(int, V)>,
)
    requires
        total_order::<V>(),
        in_range(first, slots.len()),
        forall|set: (int, V)| first.contains(set) <==> second.contains(set),
    ensures
        merged_all(slots, first) == merged_all(slots, second),
{
    assert forall|i: int| 0 <= i < second.len() implies 0 <= (#[trigger] second[i]).0
        < slots.len() by {
        assert(second.contains(second[i]));
    }
    size_is_fixed(slots, first);
    size_is_fixed(slots, second);
    assert forall|bucket: int| 0 <= bucket < slots.len() implies merged_all(slots, first)[bucket]
        == merged_all(slots, second)[bucket] by {
        holds_the_least(slots, first, bucket);
        holds_the_least(slots, second, bucket);
        least_is_unique(
            merged_all(slots, first)[bucket],
            merged_all(slots, second)[bucket],
            slots[bucket],
            first,
            second,
            bucket,
        );
    }
    assert(merged_all(slots, first) =~= merged_all(slots, second));
}

/// The table that a run of assignments leaves is the same for every
/// permutation of the run.
pub proof fn order_independent<V: Ord>(
    slots: Seq<V>,
    first: Seq<(int, V)>,
    second: Seq<(int, V)>,
)
    requires
        total_order::<V>(),
        in_range(first, slots.len()),
        first.to_multiset() == second.to_multiset(),
    ensures
        merged_all(slots, first) == merged_all(slots, second),
{
    first.to_multiset_ensures();
    second.to_multiset_ensures();
    assert forall|set: (int, V)| first.contains(set) <==> second.contains(set) by {
        assert(first.contains(set) <==> first.to_multiset().count(set) > 0);
        assert(second.contains(set) <==> second.to_multiset().count(set) > 0);
    }
    repeats_and_order_do_not_matter(slots, first, second);
}

} // verus!
