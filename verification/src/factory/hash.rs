//! The factory's default routing hash: hashes a job key into a finite space.
use vstd::prelude::*;
use std::collections::hash_map::DefaultHasher;
use std::hash::Hasher;
use vstd::std_specs::hash::DefaultHasherAdditionalSpecFns;

verus! {

/// The hash of a key: the standard library's default hasher fed the key's
/// sixteen little-endian bytes (the bytes an integer key writes on a
/// little-endian machine).
pub open spec fn spec_key_hash(key: u128) -> u64 {
    DefaultHasher::spec_finish(seq![vstd::bytes::spec_u128_to_le_bytes(key)])
}

/// Hash a key into the space `0..excluded_max`. An empty space has no value to
/// give, so `excluded_max` must be positive.
pub fn hash_with_max(key: u128, excluded_max: usize) -> (r: usize)
    requires
        excluded_max > 0,
    ensures
        r == spec_key_hash(key) % (excluded_max as u64),
        r < excluded_max,
{
    let bytes = vstd::bytes::u128_to_le_bytes(key);
    let mut dh = DefaultHasher::new();
    dh.write(bytes.as_slice());
    let hashed = dh.finish();
    (hashed % (excluded_max as u64)) as usize
}

/// The hash of a 64-bit key: the standard library's default hasher fed the
/// key's eight little-endian bytes.
pub open spec fn spec_u64_key_hash(key: u64) -> u64 {
    DefaultHasher::spec_finish(seq![vstd::bytes::spec_u64_to_le_bytes(key)])
}

/// Hash a 64-bit key (a job key) into the space `0..excluded_max`, which must
/// not be empty.
pub fn hash_u64_with_max(key: u64, excluded_max: usize) -> (r: usize)
    requires
        excluded_max > 0,
    ensures
        r == spec_u64_key_hash(key) % (excluded_max as u64),
        r < excluded_max,
{
    let bytes = vstd::bytes::u64_to_le_bytes(key);
    let mut dh = DefaultHasher::new();
    dh.write(bytes.as_slice());
    let hashed = dh.finish();
    (hashed % (excluded_max as u64)) as usize
}

} // verus!
