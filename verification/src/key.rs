//! The 128-bit secret key used by the facade transform.

use vstd::prelude::*;

verus! {

/// An opaque 128-bit secret, held as two 64-bit words.
///
/// The key is supplied by the caller and read-only here: this library
/// neither generates, stores, nor rotates keys.
#[derive(Debug, PartialEq, Eq, Structural, Clone, Copy)]
pub struct UuidV47Key {
    /// First 64 bits of the key.
    pub k0: u64,
    /// Second 64 bits of the key.
    pub k1: u64,
}

impl UuidV47Key {
    /// Creates a new key from its two 64-bit words.
    pub fn new(k0: u64, k1: u64) -> (r: Self)
        ensures
            r.k0 == k0,
            r.k1 == k1,
    {
        UuidV47Key { k0, k1 }
    }
}

} // verus!
