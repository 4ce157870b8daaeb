use sewer56_archives_nx::headers::raw::toc::v2::format_selector::{
    can_use_fef64, determine_optimal_toc_format, ToCFormat,
};
use sewer56_archives_nx::headers::raw::toc::v2::presets::preset0_header::{
    PRESET0_BLOCK_COUNT_MAX, PRESET0_DECOMPRESSED_BLOCK_OFFSET_MAX, PRESET0_FILE_COUNT_MAX,
    PRESET0_MAX_FILE_SIZE, PRESET0_STRING_POOL_SIZE_MAX, PRESET1_BLOCK_COUNT_MAX,
    PRESET1_FILE_COUNT_MAX, PRESET1_MAX_FILE_SIZE, PRESET1_STRING_POOL_SIZE_MAX,
    PRESET2_BLOCK_COUNT_MAX, PRESET2_FILE_COUNT_MAX, PRESET2_MAX_FILE_SIZE,
    PRESET2_STRING_POOL_SIZE_MAX,
};
use sewer56_archives_nx::headers::raw::toc::v2::presets::preset3_header::{
    PRESET3_BLOCK_COUNT_MAX, PRESET3_FILE_COUNT_MAX, PRESET3_MAX_DECOMPRESSED_BLOCK_OFFSET,
    PRESET3_MAX_FILE_SIZE, PRESET3_STRING_POOL_SIZE_MAX,
};

#[test]
fn will_use_preset3nohash_when_all_preset3nohash_conditions_met() {
    let toc = determine_optimal_toc_format(
        PRESET3_STRING_POOL_SIZE_MAX,
        PRESET3_MAX_DECOMPRESSED_BLOCK_OFFSET,
        PRESET3_BLOCK_COUNT_MAX,
        PRESET3_FILE_COUNT_MAX,
        false,
        PRESET3_MAX_FILE_SIZE as u64,
    );
    assert_eq!(toc, ToCFormat::Preset3NoHash);
}

#[test]
fn will_use_preset1_when_nohash_and_preset1_conditions_met() {
    let toc = determine_optimal_toc_format(
        PRESET1_STRING_POOL_SIZE_MAX,
        1000,
        PRESET1_BLOCK_COUNT_MAX,
        PRESET1_FILE_COUNT_MAX,
        false,
        PRESET1_MAX_FILE_SIZE as u64,
    );
    assert_eq!(toc, ToCFormat::Preset1);
}

#[test]
fn will_use_preset3_when_all_preset3_conditions_met() {
    let toc = determine_optimal_toc_format(
        PRESET3_STRING_POOL_SIZE_MAX,
        PRESET3_MAX_DECOMPRESSED_BLOCK_OFFSET,
        PRESET3_BLOCK_COUNT_MAX,
        PRESET3_FILE_COUNT_MAX,
        true,
        PRESET3_MAX_FILE_SIZE as u64,
    );
    assert_eq!(toc, ToCFormat::Preset3);
}

#[test]
fn will_use_fef64_when_hash_and_block_offset_required() {
    let toc = determine_optimal_toc_format(4096, 1024, 256, 256, true, 1024 * 1024);
    assert_eq!(toc, ToCFormat::FEF64);
}

#[test]
fn will_use_preset0_when_hashes_required_and_preset0_conditions_met() {
    let toc = determine_optimal_toc_format(
        PRESET0_STRING_POOL_SIZE_MAX,
        PRESET0_DECOMPRESSED_BLOCK_OFFSET_MAX,
        PRESET0_BLOCK_COUNT_MAX,
        PRESET0_FILE_COUNT_MAX,
        true,
        PRESET0_MAX_FILE_SIZE as u64,
    );
    assert_eq!(toc, ToCFormat::Preset0);
}

#[test]
fn will_use_preset2_when_hashes_required_and_preset2_conditions_met() {
    let toc = determine_optimal_toc_format(
        PRESET2_STRING_POOL_SIZE_MAX,
        0,
        PRESET2_BLOCK_COUNT_MAX,
        PRESET2_FILE_COUNT_MAX,
        true,
        PRESET2_MAX_FILE_SIZE,
    );
    assert_eq!(toc, ToCFormat::Preset2);
}

#[test]
fn will_use_error_when_no_formats_fit() {
    let toc = determine_optimal_toc_format(
        PRESET2_STRING_POOL_SIZE_MAX + 1,
        1,
        PRESET2_BLOCK_COUNT_MAX + 1,
        PRESET2_FILE_COUNT_MAX + 1,
        true,
        PRESET2_MAX_FILE_SIZE,
    );
    assert_eq!(toc, ToCFormat::Error);
}

#[test]
fn fef64_needs_room_for_file_size() {
    // 10 + 10 + 12 bits leave 32 bits for the size.
    assert!(can_use_fef64(0, 4095, 1023, 1023, 0xFFFF_FFFF));
    assert!(!can_use_fef64(0, 4095, 1023, 1023, 0x1_0000_0000));
    // A count that needs 32 bits rules the format out.
    assert!(!can_use_fef64(0x8000_0000, 0, 0, 0, 0));
}

#[test]
fn no_hash_fef64_before_preset1() {
    let toc = determine_optimal_toc_format(100, 100, 10, 10, false, 1000);
    assert_eq!(toc, ToCFormat::FEF64);
}
