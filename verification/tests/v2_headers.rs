use sewer56_archives_nx::headers::raw::toc::v2::fef64::toc_header::Fef64TocHeader;
use sewer56_archives_nx::headers::raw::toc::v2::presets::preset0_header::Preset0TocHeader;
use sewer56_archives_nx::headers::raw::toc::v2::presets::preset2_header::Preset2TocHeader;
use sewer56_archives_nx::headers::raw::toc::v2::presets::preset3_header::{
    Preset3TocHeader, PRESET3_BLOCK_COUNT_MAX, PRESET3_FILE_COUNT_MAX,
    PRESET3_STRING_POOL_SIZE_MAX,
};
use std::mem::size_of;

#[test]
fn toc_header_header_size_is_correct() {
    assert_eq!(size_of::<Fef64TocHeader>(), Fef64TocHeader::SIZE_BYTES);
}

#[test]
fn toc_header_can_init_max_values() {
    let header = Fef64TocHeader::new(true, 31, 31, 31, 31, 0x003F_FFFF_FFFF);
    assert!(header.get_is_flexible_format());
    assert!(header.get_has_hash());
    assert_eq!(header.get_string_pool_size_bits(), 31);
    assert_eq!(header.get_file_count_bits(), 31);
    assert_eq!(header.get_block_count_bits(), 31);
    assert_eq!(header.get_decompressed_block_offset_bits(), 31);
    assert_eq!(header.get_padding_or_item_counts(), 0x003F_FFFF_FFFF);
}

#[test]
fn toc_header_values_correctly_overflow() {
    let header = Fef64TocHeader::new(true, 0b1_00000, 0x20, 0xFF, 0x20, 0xFFFF_FFFF_FFFF);
    assert_eq!(header.get_string_pool_size_bits(), 0);
    assert_eq!(header.get_file_count_bits(), 0);
    assert_eq!(header.get_block_count_bits(), 31);
    assert_eq!(header.get_decompressed_block_offset_bits(), 0);
    assert_eq!(header.get_padding_or_item_counts(), 0x03FF_FFFF_FFFF);
}

#[test]
fn toc_header_default_values_are_sane() {
    let header = Fef64TocHeader::default();
    assert!(header.get_is_flexible_format());
    assert!(!header.get_has_hash());
    assert_eq!(header.get_string_pool_size_bits(), 0);
    assert_eq!(header.get_file_count_bits(), 0);
    assert_eq!(header.get_block_count_bits(), 0);
    assert_eq!(header.get_decompressed_block_offset_bits(), 0);
    assert_eq!(header.get_padding_or_item_counts(), 0);
}

#[test]
fn fef64_extended_header_when_counts_exceed_42_bits() {
    assert!(Fef64TocHeader::new(true, 31, 31, 31, 0, 0).has_extended_header());
    assert!(!Fef64TocHeader::new(true, 20, 12, 10, 0, 0).has_extended_header());
    assert!(Fef64TocHeader::new(true, 20, 12, 11, 0, 0).has_extended_header());
}

#[test]
fn preset0_header_header_size_is_correct() {
    assert_eq!(size_of::<Preset0TocHeader>(), Preset0TocHeader::SIZE_BYTES);
}

#[test]
fn preset0_header_can_init_max_values() {
    let header = Preset0TocHeader::new(0, 0x1FFFFF, 0x3FFFFF, 0x3FFFF);
    assert!(!header.get_is_flexible_format());
    assert_eq!(header.get_preset(), 0);
    assert_eq!(header.get_string_pool_size(), 0x1FFFFF);
    assert_eq!(header.get_block_count(), 0x3FFFFF);
    assert_eq!(header.get_file_count(), 0x3FFFF);
}

#[test]
fn preset0_header_values_correctly_overflow() {
    let header = Preset0TocHeader::new(0, 0x2_00000, 0x4_000000, 0x40000);
    assert_eq!(header.get_string_pool_size(), 0);
    assert_eq!(header.get_block_count(), 0);
    assert_eq!(header.get_file_count(), 0);
}

#[test]
fn preset0_header_default_values_are_sane() {
    let header = Preset0TocHeader::default();
    assert!(!header.get_is_flexible_format());
    assert_eq!(header.get_preset(), 0);
    assert_eq!(header.get_string_pool_size(), 0);
    assert_eq!(header.get_block_count(), 0);
    assert_eq!(header.get_file_count(), 0);
}

#[test]
fn preset0_header_from_raw_creates_correct_header() {
    let raw: u64 = 0x000123456789ABCDE;
    let header = Preset0TocHeader::from_raw(raw);
    assert!(!header.get_is_flexible_format());
    assert_eq!(header.get_preset(), 0);
    assert_eq!(header.get_string_pool_size(), ((raw >> 40) & 0x1FFFFF) as u32);
    assert_eq!(header.get_block_count(), ((raw >> 18) & 0x3FFFFF) as u32);
    assert_eq!(header.get_file_count(), (raw & 0x3FFFF) as u32);
}

#[test]
fn preset2_header_header_size_is_correct() {
    assert_eq!(size_of::<Preset2TocHeader>(), Preset2TocHeader::SIZE_BYTES);
}

#[test]
fn preset2_header_can_init_max_values() {
    let header = Preset2TocHeader::new(0x1FFFFF, 0x3FFFFF, 0x3FFFF);
    assert!(!header.get_is_flexible_format());
    assert_eq!(header.get_preset(), 2);
    assert_eq!(header.get_string_pool_size(), 0x1FFFFF);
    assert_eq!(header.get_block_count(), 0x3FFFFF);
    assert_eq!(header.get_file_count(), 0x3FFFF);
}

#[test]
fn preset2_header_values_correctly_overflow() {
    let header = Preset2TocHeader::new(0x2_00000, 0x4_000000, 0x40000);
    assert_eq!(header.get_string_pool_size(), 0);
    assert_eq!(header.get_block_count(), 0);
    assert_eq!(header.get_file_count(), 0);
}

#[test]
fn preset2_header_is_little_endian() {
    let header = Preset2TocHeader::new(0x123456, 0x1ABCDE, 0x2ABCDE);
    let le_header = header.to_le();
    assert_eq!(header.0, le_header.0);
}

#[test]
fn preset2_header_default_values_are_sane() {
    let header = Preset2TocHeader::default();
    assert!(!header.get_is_flexible_format());
    assert_eq!(header.get_preset(), 2);
    assert_eq!(header.get_string_pool_size(), 0);
    assert_eq!(header.get_block_count(), 0);
    assert_eq!(header.get_file_count(), 0);
}

#[test]
fn preset2_header_from_raw_creates_correct_header() {
    let raw: u64 = 0x40123456789ABCDE;
    let header = Preset2TocHeader::from_raw(raw);
    assert!(!header.get_is_flexible_format());
    assert_eq!(header.get_preset(), 2);
    assert_eq!(header.get_string_pool_size(), ((raw >> 40) & 0x1FFFFF) as u32);
    assert_eq!(header.get_block_count(), ((raw >> 18) & 0x3FFFFF) as u32);
    assert_eq!(header.get_file_count(), (raw & 0x3FFFF) as u32);
}

#[test]
fn preset3_header_header_size_is_correct() {
    assert_eq!(size_of::<Preset3TocHeader>(), Preset3TocHeader::SIZE_BYTES);
}

#[test]
fn preset3_header_can_init_max_values() {
    let header = Preset3TocHeader::new(
        true,
        PRESET3_STRING_POOL_SIZE_MAX,
        PRESET3_BLOCK_COUNT_MAX as u16,
        PRESET3_FILE_COUNT_MAX as u16,
    );
    assert!(!header.get_is_flexible_format());
    assert_eq!(header.get_preset(), 3);
    assert!(header.get_has_hash());
    assert_eq!(header.get_string_pool_size(), PRESET3_STRING_POOL_SIZE_MAX);
    assert_eq!(header.get_block_count(), PRESET3_BLOCK_COUNT_MAX as u16);
    assert_eq!(header.get_file_count(), PRESET3_FILE_COUNT_MAX as u16);
    assert_eq!(header.get_padding(), 0);
}

#[test]
fn preset3_header_values_correctly_overflow() {
    let header = Preset3TocHeader::new(
        true,
        PRESET3_STRING_POOL_SIZE_MAX + 1,
        (PRESET3_BLOCK_COUNT_MAX + 1) as u16,
        (PRESET3_FILE_COUNT_MAX + 1) as u16,
    );
    assert_eq!(header.get_string_pool_size(), 0);
    assert_eq!(header.get_block_count(), 0);
    assert_eq!(header.get_file_count(), 0);
    assert_eq!(header.get_padding(), 0);
}

#[test]
fn preset3_header_default_values_are_sane() {
    let header = Preset3TocHeader::default();
    assert!(!header.get_is_flexible_format());
    assert_eq!(header.get_preset(), 3);
    assert!(header.get_has_hash());
    assert_eq!(header.get_string_pool_size(), 0);
    assert_eq!(header.get_block_count(), 0);
    assert_eq!(header.get_file_count(), 0);
    assert_eq!(header.get_padding(), 0);
}
