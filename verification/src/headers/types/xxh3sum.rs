use vstd::prelude::*;

verus! {

/// The 64 bit XXH3 hash of `data` (with the default secret and seed).
pub uninterp spec fn xxh3_64(data: Seq<u8>) -> u64;

/// Calls `xxhash_rust::xxh3::xxh3_64`; its result is named [`xxh3_64`].
#[verifier::external_body]
fn hash_xxh3_64(data: &[u8]) -> (r: u64)
    ensures
        r == xxh3_64(data@),
{
    ::xxhash_rust::xxh3::xxh3_64(data)
}

/// A 64 bit XXH3 hash.
#[derive(Debug, PartialEq, Eq, Clone, Copy, Hash, Structural)]
pub struct XXH3sum(pub u64);

impl XXH3sum {
    /// Hashes `data`.
    pub fn create(data: &[u8]) -> (r: XXH3sum)
        ensures
            r.0 == xxh3_64(data@),
    {
        XXH3sum(hash_xxh3_64(data))
    }
}

} // verus!
