//! Hash maps with the FNV hasher, keyed by an index, as the runtime's
//! tables use them.

use vstd::prelude::*;
use fnv::FnvHashMap;
use fnv::FnvHasher;
use std::hash::BuildHasherDefault;

verus! {

/// The hasher of the `fnv` crate, of which nothing is said here.
#[verifier::external_type_specification]
#[verifier::external_body]
pub struct ExFnvHasher(FnvHasher);

/// The standard builder of default hashers, of which nothing is said here.
#[verifier::external_type_specification]
#[verifier::external_body]
#[verifier::reject_recursive_types(H)]
pub struct ExBuildHasherDefault<H>(BuildHasherDefault<H>);

/// `FnvHashMap::default`: the map that it makes is empty.
#[verifier::external_body]
pub(crate) fn fnv_new<V>() -> (result: FnvHashMap<usize, V>)
    ensures
        (result@ == Map::<usize, V>::empty()),
{
    FnvHashMap::default()
}

/// `HashMap::get`, with the value copied out: the value under `key`, or
/// `None` where the map has no such key.
#[verifier::external_body]
pub(crate) fn fnv_get<V: Copy>(m: &FnvHashMap<usize, V>, key: usize) -> (result: Option<V>)
    ensures
        result == (if m@.contains_key(key) {
            Some(m@[key])
        } else {
            None
        }),
{
    m.get(&key).copied()
}

/// `HashMap::insert`: afterwards `key` maps to `value` and every other key is
/// as before.
#[verifier::external_body]
pub(crate) fn fnv_insert<V>(m: &mut FnvHashMap<usize, V>, key: usize, value: V)
    ensures
        final(m)@ == old(m)@.insert(key, value),
{
    m.insert(key, value);
}

/// `HashMap::remove`: afterwards the map has no `key` and every other key is
/// as before.
#[verifier::external_body]
pub(crate) fn fnv_remove<V>(m: &mut FnvHashMap<usize, V>, key: usize)
    ensures
        final(m)@ == old(m)@.remove(key),
{
    m.remove(&key);
}

} // verus!
