/// XXH3 hashes.
pub mod xxh3sum;
