use crate::headers::raw::toc::v2::presets::preset0_header::{
    PRESET0_BLOCK_COUNT_MAX, PRESET0_DECOMPRESSED_BLOCK_OFFSET_MAX, PRESET0_FILE_COUNT_MAX,
    PRESET0_MAX_FILE_SIZE, PRESET0_STRING_POOL_SIZE_MAX, PRESET1_BLOCK_COUNT_MAX,
    PRESET1_FILE_COUNT_MAX, PRESET1_MAX_FILE_SIZE, PRESET1_STRING_POOL_SIZE_MAX,
    PRESET2_BLOCK_COUNT_MAX, PRESET2_FILE_COUNT_MAX, PRESET2_MAX_FILE_SIZE,
    PRESET2_STRING_POOL_SIZE_MAX,
};
use crate::headers::raw::toc::v2::presets::preset3_header::{
    PRESET3_BLOCK_COUNT_MAX, PRESET3_FILE_COUNT_MAX, PRESET3_MAX_DECOMPRESSED_BLOCK_OFFSET,
    PRESET3_MAX_FILE_SIZE, PRESET3_STRING_POOL_SIZE_MAX,
};
use crate::utilities::bit_count::{bits_needed_u32, bits_needed_u64, spec_bits_needed};
use vstd::prelude::*;

verus! {

/// The layouts a table of contents can be written in.
#[derive(Clone, Copy, PartialEq, Eq, Hash, Debug, Structural)]
pub enum ToCFormat {
    /// Flexible Entry Format with 64 bit entries.
    FEF64,
    /// Preset 0 (general fallback, with hashes).
    Preset0,
    /// Preset 1 (without hashes).
    Preset1,
    /// Preset 2 (final fallback, with hashes).
    Preset2,
    /// Preset 3 (no SOLID blocks), with hashes.
    Preset3,
    /// Preset 3 (no SOLID blocks), without hashes.
    Preset3NoHash,
    /// No format can hold the archive.
    Error,
}

/// The subtraction in [`can_use_fef64`] stays within `u32`: either some count needs more
/// than 31 bits, or the bits of the offset, file count and block count sum to at most 64.
pub open spec fn spec_fef64_bits_in_range(
    string_pool_size: u32,
    max_decompressed_block_offset: u32,
    block_count: u32,
    file_count: u32,
) -> bool {
    let a = spec_bits_needed(string_pool_size as nat);
    let b = spec_bits_needed(file_count as nat);
    let c = spec_bits_needed(block_count as nat);
    let d = spec_bits_needed(max_decompressed_block_offset as nat);
    a > 31 || b > 31 || c > 31 || d > 31 || d + b + c <= 64
}

/// Whether the Flexible Entry Format can hold the given counts: each count fits in 31
/// bits, and the bits left for the decompressed size hold the largest file.
pub open spec fn spec_can_use_fef64(
    string_pool_size: u32,
    max_decompressed_block_offset: u32,
    block_count: u32,
    file_count: u32,
    max_file_size: u64,
) -> bool {
    let a = spec_bits_needed(string_pool_size as nat);
    let b = spec_bits_needed(file_count as nat);
    let c = spec_bits_needed(block_count as nat);
    let d = spec_bits_needed(max_decompressed_block_offset as nat);
    if a > 31 || b > 31 || c > 31 || d > 31 {
        false
    } else {
        spec_bits_needed(max_file_size as nat) + d + b + c <= 64
    }
}

/// Whether Preset 3 can hold the given counts.
pub open spec fn spec_fits_preset3(
    string_pool_size: u32,
    max_decompressed_block_offset: u32,
    block_count: u32,
    file_count: u32,
    max_file_size: u64,
) -> bool {
    &&& string_pool_size <= PRESET3_STRING_POOL_SIZE_MAX
    &&& block_count <= PRESET3_BLOCK_COUNT_MAX
    &&& file_count <= PRESET3_FILE_COUNT_MAX
    &&& max_decompressed_block_offset <= PRESET3_MAX_DECOMPRESSED_BLOCK_OFFSET
    &&& max_file_size <= PRESET3_MAX_FILE_SIZE as u64
}

/// Whether Preset 1 can hold the given counts.
pub open spec fn spec_fits_preset1(string_pool_size: u32, block_count: u32, file_count: u32, max_file_size: u64) -> bool {
    &&& string_pool_size <= PRESET1_STRING_POOL_SIZE_MAX
    &&& block_count <= PRESET1_BLOCK_COUNT_MAX
    &&& file_count <= PRESET1_FILE_COUNT_MAX
    &&& max_file_size <= PRESET1_MAX_FILE_SIZE as u64
}

/// Whether Preset 0 can hold the given counts.
pub open spec fn spec_fits_preset0(
    string_pool_size: u32,
    max_decompressed_block_offset: u32,
    block_count: u32,
    file_count: u32,
    max_file_size: u64,
) -> bool {
    &&& string_pool_size <= PRESET0_STRING_POOL_SIZE_MAX
    &&& block_count <= PRESET0_BLOCK_COUNT_MAX
    &&& file_count <= PRESET0_FILE_COUNT_MAX
    &&& max_decompressed_block_offset <= PRESET0_DECOMPRESSED_BLOCK_OFFSET_MAX
    &&& max_file_size <= PRESET0_MAX_FILE_SIZE as u64
}

/// Whether Preset 2 can hold the given counts.
pub open spec fn spec_fits_preset2(string_pool_size: u32, block_count: u32, file_count: u32, max_file_size: u64) -> bool {
    &&& string_pool_size <= PRESET2_STRING_POOL_SIZE_MAX
    &&& block_count <= PRESET2_BLOCK_COUNT_MAX
    &&& file_count <= PRESET2_FILE_COUNT_MAX
    &&& max_file_size <= PRESET2_MAX_FILE_SIZE
}

/// The format chosen for the given counts, in order of preference (smallest entries first,
/// then simplest to decode): Preset 3 without hashes, FEF64 without hashes, Preset 1,
/// Preset 3 with hashes, FEF64, Preset 0, Preset 2; [`ToCFormat::Error`] if none fits.
pub open spec fn spec_optimal_toc_format(
    string_pool_size: u32,
    max_decompressed_block_offset: u32,
    block_count: u32,
    file_count: u32,
    hashes_required: bool,
    max_file_size: u64,
) -> ToCFormat {
    let fef64 = spec_can_use_fef64(string_pool_size, max_decompressed_block_offset, block_count, file_count, max_file_size);
    let p3 = spec_fits_preset3(string_pool_size, max_decompressed_block_offset, block_count, file_count, max_file_size);
    if p3 && !hashes_required {
        ToCFormat::Preset3NoHash
    } else if !hashes_required && fef64 {
        ToCFormat::FEF64
    } else if !hashes_required && spec_fits_preset1(string_pool_size, block_count, file_count, max_file_size) {
        ToCFormat::Preset1
    } else if p3 && hashes_required {
        ToCFormat::Preset3
    } else if fef64 {
        ToCFormat::FEF64
    } else if hashes_required && spec_fits_preset0(string_pool_size, max_decompressed_block_offset, block_count, file_count, max_file_size) {
        ToCFormat::Preset0
    } else if hashes_required && spec_fits_preset2(string_pool_size, block_count, file_count, max_file_size) {
        ToCFormat::Preset2
    } else {
        ToCFormat::Error
    }
}

/// Determines the table of contents format with the smallest entries that can hold an
/// archive with the given counts.
pub fn determine_optimal_toc_format(
    string_pool_size: u32,
    max_decompressed_block_offset: u32,
    block_count: u32,
    file_count: u32,
    hashes_required: bool,
    max_file_size: u64,
) -> (r: ToCFormat)
    requires
        spec_fef64_bits_in_range(string_pool_size, max_decompressed_block_offset, block_count, file_count),
    ensures
        r == spec_optimal_toc_format(string_pool_size, max_decompressed_block_offset, block_count, file_count, hashes_required, max_file_size),
{
    let supports_fef64 = can_use_fef64(
        string_pool_size,
        max_decompressed_block_offset,
        block_count,
        file_count,
        max_file_size,
    );

    let supports_preset_3 = string_pool_size <= PRESET3_STRING_POOL_SIZE_MAX
        && block_count <= PRESET3_BLOCK_COUNT_MAX
        && file_count <= PRESET3_FILE_COUNT_MAX
        && max_decompressed_block_offset <= PRESET3_MAX_DECOMPRESSED_BLOCK_OFFSET
        && max_file_size <= PRESET3_MAX_FILE_SIZE as u64;

    if supports_preset_3 && !hashes_required {
        return ToCFormat::Preset3NoHash;
    }
    if !hashes_required && supports_fef64 {
        return ToCFormat::FEF64;
    }
    if !hashes_required && string_pool_size <= PRESET1_STRING_POOL_SIZE_MAX && block_count
        <= PRESET1_BLOCK_COUNT_MAX && file_count <= PRESET1_FILE_COUNT_MAX && max_file_size
        <= PRESET1_MAX_FILE_SIZE as u64 {
        return ToCFormat::Preset1;
    }
    if supports_preset_3 && hashes_required {
        return ToCFormat::Preset3;
    }
    if supports_fef64 {
        return ToCFormat::FEF64;
    }
    if hashes_required && string_pool_size <= PRESET0_STRING_POOL_SIZE_MAX && block_count
        <= PRESET0_BLOCK_COUNT_MAX && file_count <= PRESET0_FILE_COUNT_MAX
        && max_decompressed_block_offset <= PRESET0_DECOMPRESSED_BLOCK_OFFSET_MAX && max_file_size
        <= PRESET0_MAX_FILE_SIZE as u64 {
        return ToCFormat::Preset0;
    }
    if hashes_required && string_pool_size <= PRESET2_STRING_POOL_SIZE_MAX && block_count
        <= PRESET2_BLOCK_COUNT_MAX && file_count <= PRESET2_FILE_COUNT_MAX && max_file_size
        <= PRESET2_MAX_FILE_SIZE {
        return ToCFormat::Preset2;
    }
    ToCFormat::Error
}

/// Determines whether the Flexible Entry Format can be used for the given counts.
pub fn can_use_fef64(
    string_pool_size: u32,
    max_decompressed_block_offset: u32,
    block_count: u32,
    file_count: u32,
    max_file_size: u64,
) -> (r: bool)
    requires
        spec_fef64_bits_in_range(string_pool_size, max_decompressed_block_offset, block_count, file_count),
    ensures
        r == spec_can_use_fef64(string_pool_size, max_decompressed_block_offset, block_count, file_count, max_file_size),
{
    let bits_needed_string_pool_size = bits_needed_u32(string_pool_size);
    let bits_needed_file_count = bits_needed_u32(file_count);
    let bits_needed_block_count = bits_needed_u32(block_count);
    let bits_needed_decompressed_block_offset = bits_needed_u32(max_decompressed_block_offset);

    if bits_needed_string_pool_size > 31 || bits_needed_file_count > 31 || bits_needed_block_count
        > 31 || bits_needed_decompressed_block_offset > 31 {
        return false;
    }
    let bits_remaining = 64 - bits_needed_decompressed_block_offset - bits_needed_file_count
        - bits_needed_block_count;
    let bits_needed_file_size = bits_needed_u64(max_file_size);
    bits_needed_file_size <= bits_remaining
}

/// Whether a format stores file hashes.
pub open spec fn spec_format_has_hash(format: ToCFormat) -> bool {
    format == ToCFormat::Preset0 || format == ToCFormat::Preset2 || format == ToCFormat::Preset3
}

/// The chosen format can hold the archive: its limits admit every count, and it stores
/// hashes exactly when they are required (FEF64 can be written with or without them);
/// [`ToCFormat::Error`] comes only when no format that suits the hash requirement fits.
pub proof fn lemma_optimal_toc_format_fits(
    string_pool_size: u32,
    max_decompressed_block_offset: u32,
    block_count: u32,
    file_count: u32,
    hashes_required: bool,
    max_file_size: u64,
)
    ensures
        ({
            let f = spec_optimal_toc_format(string_pool_size, max_decompressed_block_offset, block_count, file_count, hashes_required, max_file_size);
            &&& f == ToCFormat::Preset3NoHash || f == ToCFormat::Preset3 ==> spec_fits_preset3(string_pool_size, max_decompressed_block_offset, block_count, file_count, max_file_size)
            &&& f == ToCFormat::FEF64 ==> spec_can_use_fef64(string_pool_size, max_decompressed_block_offset, block_count, file_count, max_file_size)
            &&& f == ToCFormat::Preset1 ==> spec_fits_preset1(string_pool_size, block_count, file_count, max_file_size)
            &&& f == ToCFormat::Preset0 ==> spec_fits_preset0(string_pool_size, max_decompressed_block_offset, block_count, file_count, max_file_size)
            &&& f == ToCFormat::Preset2 ==> spec_fits_preset2(string_pool_size, block_count, file_count, max_file_size)
            &&& f != ToCFormat::FEF64 && f != ToCFormat::Error ==> spec_format_has_hash(f) == hashes_required
            &&& f == ToCFormat::Error ==> {
                &&& !spec_fits_preset3(string_pool_size, max_decompressed_block_offset, block_count, file_count, max_file_size)
                &&& !spec_can_use_fef64(string_pool_size, max_decompressed_block_offset, block_count, file_count, max_file_size)
                &&& hashes_required ==> !spec_fits_preset0(string_pool_size, max_decompressed_block_offset, block_count, file_count, max_file_size)
                &&& hashes_required ==> !spec_fits_preset2(string_pool_size, block_count, file_count, max_file_size)
                &&& !hashes_required ==> !spec_fits_preset1(string_pool_size, block_count, file_count, max_file_size)
            }
        }),
{
}

/// Without required hashes a format is always found, and it never stores hashes
/// (FEF64 aside, which can be written either way).
pub proof fn lemma_optimal_toc_format_without_hashes(
    string_pool_size: u32,
    max_decompressed_block_offset: u32,
    block_count: u32,
    file_count: u32,
    max_file_size: u64,
)
    requires
        string_pool_size <= PRESET1_STRING_POOL_SIZE_MAX,
        block_count <= PRESET1_BLOCK_COUNT_MAX,
        file_count <= PRESET1_FILE_COUNT_MAX,
        max_file_size <= PRESET1_MAX_FILE_SIZE as u64,
    ensures
        ({
            let f = spec_optimal_toc_format(string_pool_size, max_decompressed_block_offset, block_count, file_count, false, max_file_size);
            f == ToCFormat::Preset3NoHash || f == ToCFormat::FEF64 || f == ToCFormat::Preset1
        }),
{
}

} // verus!
