//! The table itself: fixed storage, the hash that picks a bucket, and the
//! rule that a bucket keeps the minimum of what was assigned to it.

use crate::model::{assigned, bucket_of, filled};
use std::collections::hash_map::RandomState;
use std::hash::{BuildHasher, Hash, Hasher};
use std::marker::PhantomData;
use vstd::prelude::*;

verus! {

/// A fixed-size hash map which only remembers the minimum value set for a
/// given hash. Keys that hash to the same bucket share a slot and cannot be
/// told apart.
pub struct MinMap<K: Hash, V: Copy + Ord + Sized, H: BuildHasher, const SIZE: usize> {
    table: [V; SIZE],
    hash_builder: H,
    key_type: PhantomData<K>,
}

/// `RandomState::new` seeds a new hash builder from the process's source of
/// randomness. Nothing is claimed of the builder it returns.
pub assume_specification[ RandomState::new ]() -> RandomState;

/// Calls `BuildHasher::build_hasher`. Nothing is claimed of the hasher that
/// comes back.
#[verifier::external_body]
fn build_hasher<H: BuildHasher>(hash_builder: &H) -> H::Hasher {
    hash_builder.build_hasher()
}

/// Calls `Hash::hash`, which feeds `key` into `state`. Nothing is claimed of
/// the state afterwards.
#[verifier::external_body]
fn feed<K: Hash, S: Hasher>(key: &K, state: &mut S) {
    key.hash(state)
}

/// Calls `Hasher::finish`. Nothing is claimed of the number that comes back.
#[verifier::external_body]
fn finish<S: Hasher>(state: &S) -> u64 {
    state.finish()
}

/// The bucket of a key whose hash is `digest`, in a table of `size` slots.
pub fn bucket_index(digest: u64, size: usize) -> (bucket: usize)
    requires
        size > 0,
    ensures
        bucket == bucket_of(digest, size),
        bucket < size,
{
    digest as usize % size
}

/// The entry of `slots` at `index`, to be written.
fn entry_mut<V, const SIZE: usize>(slots: &mut [V; SIZE], index: usize) -> (entry: &mut V)
    requires
        index < SIZE,
    ensures
        *entry == old(slots)@[index as int],
        final(slots)@ == old(slots)@.update(index as int, *final(entry)),
    no_unwind
{
    &mut slots[index]
}

impl<K: Hash, V: Copy + Ord + Sized, H: BuildHasher, const SIZE: usize> View for MinMap<
    K,
    V,
    H,
    SIZE,
> {
    type V = Seq<V>;

    /// The slots, in the order of their buckets.
    closed spec fn view(&self) -> Seq<V> {
        self.table@
    }
}

impl<K: Hash, V: Copy + Ord + Sized, const SIZE: usize> MinMap<K, V, RandomState, SIZE> {
    /// A table whose slots all hold `init`, with a randomly seeded hash.
    pub fn new(init: V) -> (map: Self)
        requires
            SIZE > 0,
        ensures
            map@ == filled(init, SIZE as nat),
    {
        Self { hash_builder: RandomState::new(), table: [init;SIZE], key_type: PhantomData }
    }
}

impl<K: Hash, V: Copy + Ord + Sized, H: BuildHasher, const SIZE: usize> MinMap<K, V, H, SIZE> {
    /// A table always has at least one slot.
    #[verifier::type_invariant]
    spec fn has_slots(self) -> bool {
        SIZE > 0
    }

    /// The hash builder that the table was made with.
    pub closed spec fn hash_builder(&self) -> H {
        self.hash_builder
    }

    /// A table whose slots all hold `init`, hashing with `hash_builder`.
    pub fn with_hash_builder(hash_builder: H, init: V) -> (map: Self)
        requires
            SIZE > 0,
        ensures
            map@ == filled(init, SIZE as nat),
            map.hash_builder() == hash_builder,
    {
        Self { hash_builder, table: [init;SIZE], key_type: PhantomData }
    }

    /// A table has one slot for each bucket, at every moment of its life.
    pub proof fn size_is_fixed(&self)
        ensures
            self@.len() == SIZE,
    {
    }

    /// The bucket that `key` falls into: the hash that the table's hash
    /// builder gives the key, reduced to the table's size. Which hash that is
    /// rests with the hash builder and the key's type.
    pub fn hash(&self, key: K) -> (bucket: usize)
        ensures
            bucket < SIZE,
            exists|digest: u64| bucket == #[trigger] bucket_of(digest, SIZE),
    {
        proof {
            use_type_invariant(self);
        }
        let mut hasher = build_hasher(&self.hash_builder);
        feed(&key, &mut hasher);
        bucket_index(finish(&hasher), SIZE)
    }

    /// The slot of `bucket`.
    pub fn slot(&self, bucket: usize) -> (value: &V)
        requires
            bucket < SIZE,
        ensures
            *value == self@[bucket as int],
    {
        &self.table[bucket]
    }

    /// The slot of `bucket`, to be written as the caller sees fit: what is
    /// written there replaces the slot's value, smaller or not.
    pub fn slot_mut(&mut self, bucket: usize) -> (value: &mut V)
        requires
            bucket < SIZE,
        ensures
            *value == old(self)@[bucket as int],
            final(self)@ == old(self)@.update(bucket as int, *final(value)),
            final(self).hash_builder() == old(self).hash_builder(),
    {
        entry_mut(&mut self.table, bucket)
    }

    /// Assigns `value` to `bucket`: the slot keeps the smaller of its value
    /// and `value`.
    pub fn merge(&mut self, bucket: usize, value: V)
        requires
            bucket < SIZE,
        ensures
            assigned(old(self)@, final(self)@, bucket as int, value),
            final(self).hash_builder() == old(self).hash_builder(),
    {
        self.table[bucket] = self.table[bucket].min(value);
    }

    /// Assigns `value` to the bucket of `key`.
    pub fn set(&mut self, key: K, value: V)
        ensures
            exists|bucket: int|
                0 <= bucket < SIZE && assigned(old(self)@, final(self)@, bucket, value),
            final(self).hash_builder() == old(self).hash_builder(),
    {
        let hash = self.hash(key);
        self.merge(hash, value);
    }

    /// The value in the bucket of `key`.
    pub fn get(&self, key: K) -> (value: V)
        ensures
            exists|bucket: int| 0 <= bucket < SIZE && value == #[trigger] self@[bucket],
    {
        *self.slot(self.hash(key))
    }
}

impl<
    K: Hash,
    V: Copy + Ord + Sized,
    H: BuildHasher,
    const SIZE: usize,
> vstd::std_specs::core::IndexSpecImpl<K> for MinMap<K, V, H, SIZE> {
    /// Every key can be looked up.
    open spec fn index_req(&self, index: &K) -> bool {
        true
    }
}

impl<
    K: Hash,
    V: Copy + Ord + Sized,
    H: BuildHasher,
    const SIZE: usize,
> std::ops::Index<K> for MinMap<K, V, H, SIZE> {
    type Output = V;

    /// The slot of the bucket of `index`.
    fn index(&self, index: K) -> (value: &V)
        ensures
            exists|bucket: int| 0 <= bucket < SIZE && *value == #[trigger] self@[bucket],
    {
        self.slot(self.hash(index))
    }
}

impl<
    K: Hash,
    V: Copy + Ord + Sized,
    H: BuildHasher,
    const SIZE: usize,
> std::ops::IndexMut<K> for MinMap<K, V, H, SIZE> {
    /// The slot of the bucket of `index`, to be written as the caller sees
    /// fit.
    fn index_mut(&mut self, index: K) -> (value: &mut V)
        ensures
            exists|bucket: int|
                0 <= bucket < SIZE && *value == #[trigger] old(self)@[bucket] && final(self)@
                    == old(self)@.update(bucket, *final(value)),
            final(self).hash_builder() == old(self).hash_builder(),
    {
        let hash = self.hash(index);
        self.slot_mut(hash)
    }
}

} // verus!
