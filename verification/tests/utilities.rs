use sewer56_archives_nx::headers::types::xxh3sum::XXH3sum;
use sewer56_archives_nx::utilities::bit_count::{bits_needed_u32, bits_needed_u64, bits_needed_usize};
use sewer56_archives_nx::utilities::endian::{u32_to_le, u64_to_le};

#[test]
fn xxh3_hash_of_known_inputs() {
    // XXH3 (64 bit) of the empty input.
    assert_eq!(XXH3sum::create(&[]).0, 0x2D06_8005_38D3_94C2);
    assert_eq!(XXH3sum::create(b"Hello, World!").0, xxhash_rust::xxh3::xxh3_64(b"Hello, World!"));
    assert_ne!(XXH3sum::create(b"a").0, XXH3sum::create(b"b").0);
}

#[test]
fn bits_needed_values() {
    assert_eq!(bits_needed_u32(0), 0);
    assert_eq!(bits_needed_u32(1), 1);
    assert_eq!(bits_needed_u32(1023), 10);
    assert_eq!(bits_needed_u32(1024), 11);
    assert_eq!(bits_needed_u64(u64::MAX), 64);
    assert_eq!(bits_needed_usize(3), 2);
}

#[test]
fn little_endian_conversion_matches_the_machine() {
    assert_eq!(u64_to_le(0x0102_0304_0506_0708), 0x0102_0304_0506_0708u64.to_le());
    assert_eq!(u32_to_le(0x0102_0304), 0x0102_0304u32.to_le());
}
