//! The hash index from address keys to session positions: a standard
//! `HashMap` whose hashers come from `twox_hash`. Nothing in this file is
//! proved; each contract states what the map is trusted to do.

use std::collections::HashMap;
use twox_hash::RandomXxHashBuilder64;
use vstd::prelude::*;

verus! {

/// The seeded hasher factory of `twox_hash`, carried inside the index.
#[verifier::external_type_specification]
#[verifier::external_body]
pub struct ExRandomXxHashBuilder64(RandomXxHashBuilder64);

/// A map from address keys to session positions, hashed with XXH64 under a
/// seed drawn once per map.
pub type AddressIndex = HashMap<u64, usize, RandomXxHashBuilder64>;

/// Calls `RandomXxHashBuilder64::default`, which draws a seed at random.
/// Nothing is claimed of the builder that comes back.
#[verifier::external_body]
pub(crate) fn random_builder() -> RandomXxHashBuilder64 {
    RandomXxHashBuilder64::default()
}

/// Calls `HashMap::with_capacity_and_hasher`. Trusted: the new map holds
/// nothing. The capacity is only a hint; it is kept small so that sizing the
/// table cannot overflow.
#[verifier::external_body]
pub(crate) fn empty_index(capacity: usize, builder: RandomXxHashBuilder64) -> (fresh: AddressIndex)
    requires
        capacity <= 0x1_0000,
    ensures
        fresh@.dom() == Set::<u64>::empty(),
{
    HashMap::with_capacity_and_hasher(capacity, builder)
}

/// Calls `HashMap::get`. Trusted: the value stored under `key`, or `None` if
/// the map holds no such key. This rests on the builder handing its one seed
/// to every `XxHash64` it builds, so that a key hashes alike each time.
#[verifier::external_body]
pub(crate) fn index_get(index: &AddressIndex, key: u64) -> (found: Option<usize>)
    ensures
        match found {
            Some(value) => index@.contains_key(key) && index@[key] == value,
            None => !index@.contains_key(key),
        },
{
    index.get(&key).copied()
}

/// Calls `HashMap::insert`. Trusted: afterwards the map holds `value` under
/// `key` and is otherwise as before.
#[verifier::external_body]
pub(crate) fn index_insert(index: &mut AddressIndex, key: u64, value: usize)
    ensures
        final(index)@ == old(index)@.insert(key, value),
{
    index.insert(key, value);
}

} // verus!
