use crate::utilities::bits::{
    lemma_mask64_is,
    get_bits64, get_field64, mask64, set_bits64, set_field64,
};
use crate::utilities::endian::{byte_swap64, u64_to_le};
use vstd::arithmetic::power2::lemma2_to64;
use vstd::prelude::*;

verus! {

/// Returns true if the item counts, whose widths in bits are given, fit within the
/// 42 bits of `PaddingOrItemCounts` in the header.
pub open spec fn spec_can_fit_within_42_bits(string_pool_size_bits: u8, block_count_bits: u8, file_count_bits: u8) -> bool {
    string_pool_size_bits as int + block_count_bits as int + file_count_bits as int <= 42
}

/// Returns true if the item counts, whose widths in bits are given, fit within the
/// 42 bits of `PaddingOrItemCounts` in the header.
pub fn can_fit_within_42_bits(string_pool_size_bits: u8, block_count_bits: u8, file_count_bits: u8) -> (r: bool)
    ensures
        r == spec_can_fit_within_42_bits(string_pool_size_bits, block_count_bits, file_count_bits),
{
    (string_pool_size_bits as u32) + (block_count_bits as u32) + (file_count_bits as u32) <= 42
}

/// The packed word that [`Fef64TocHeader::new`] produces.
pub open spec fn spec_fef64_header_word(
    has_hash: bool,
    string_pool_size_bits: u8,
    file_count_bits: u8,
    block_count_bits: u8,
    decompressed_block_offset_bits: u8,
    padding_or_item_counts: u64,
) -> u64 {
    set_bits64(set_bits64(set_bits64(set_bits64(set_bits64(set_bits64(set_bits64(0, 63, 1, 1), 62, 1, if has_hash { 1 } else { 0 }), 57, 5, string_pool_size_bits as u64), 52, 5, file_count_bits as u64), 47, 5, block_count_bits as u64), 42, 5, decompressed_block_offset_bits as u64), 0, 42, padding_or_item_counts)
}

/// Represents the TOC Header structure of the Flexible Entry Format.
///
/// | Bits    | Field                          |
/// |---------|--------------------------------|
/// | 63      | `IsFlexibleFormat` (always 1)  |
/// | 62      | `HasHash`                      |
/// | 61 - 57 | `StringPoolSizeBits`           |
/// | 56 - 52 | `FileCountBits`                |
/// | 51 - 47 | `BlockCountBits`               |
/// | 46 - 42 | `DecompressedBlockOffsetBits`  |
/// | 41 - 0  | `PaddingOrItemCounts`          |
#[derive(Clone, Copy, PartialEq, Eq, Hash, Debug)]
pub struct Fef64TocHeader(pub u64);

impl Fef64TocHeader {
    /// Size of the TOC Header in bytes.
    pub const SIZE_BYTES: usize = 8;

    /// Initializes the TOC Header with given data, setting `IsFlexibleFormat` to `1`;
    /// each value is truncated to its field.
    pub fn new(
        has_hash: bool,
        string_pool_size_bits: u8,
        file_count_bits: u8,
        block_count_bits: u8,
        decompressed_block_offset_bits: u8,
        padding_or_item_counts: u64,
    ) -> (r: Fef64TocHeader)
        ensures
            r.0 == spec_fef64_header_word(has_hash, string_pool_size_bits, file_count_bits, block_count_bits, decompressed_block_offset_bits, padding_or_item_counts),
    {
        let mut w: u64 = 0;
        w = set_field64(w, 63, 1, 1);
        w = set_field64(w, 62, 1, if has_hash { 1 } else { 0 });
        w = set_field64(w, 57, 5, string_pool_size_bits as u64);
        w = set_field64(w, 52, 5, file_count_bits as u64);
        w = set_field64(w, 47, 5, block_count_bits as u64);
        w = set_field64(w, 42, 5, decompressed_block_offset_bits as u64);
        w = set_field64(w, 0, 42, padding_or_item_counts);
        Fef64TocHeader(w)
    }

    /// Creates a header from a raw value; the value is converted to little endian
    /// and not validated.
    pub fn from_raw(raw: u64) -> (r: Fef64TocHeader)
        ensures
            r.0 == raw || r.0 == byte_swap64(raw),
    {
        Fef64TocHeader(u64_to_le(raw))
    }

    /// Converts the header to little-endian format.
    pub fn to_le(&self) -> (r: Fef64TocHeader)
        ensures
            r.0 == self.0 || r.0 == byte_swap64(self.0),
    {
        Fef64TocHeader(u64_to_le(self.0))
    }

    /// Gets the `IsFlexibleFormat` field.
    pub fn get_is_flexible_format(&self) -> (r: bool)
        ensures
            r == (get_bits64(self.0, 63, 1) == 1),
    {
        get_field64(self.0, 63, 1) == 1
    }

    /// Gets the `HasHash` field.
    pub fn get_has_hash(&self) -> (r: bool)
        ensures
            r == (get_bits64(self.0, 62, 1) == 1),
    {
        get_field64(self.0, 62, 1) == 1
    }

    /// Gets the `StringPoolSizeBits` field.
    pub fn get_string_pool_size_bits(&self) -> (r: u8)
        ensures
            r as u64 == get_bits64(self.0, 57, 5),
    {
        let r = get_field64(self.0, 57, 5);
        proof {
            lemma2_to64();
            lemma_mask64_is(5, 0x1f);
        }
        r as u8
    }

    /// Gets the `FileCountBits` field.
    pub fn get_file_count_bits(&self) -> (r: u8)
        ensures
            r as u64 == get_bits64(self.0, 52, 5),
    {
        let r = get_field64(self.0, 52, 5);
        proof {
            lemma2_to64();
            lemma_mask64_is(5, 0x1f);
        }
        r as u8
    }

    /// Gets the `BlockCountBits` field.
    pub fn get_block_count_bits(&self) -> (r: u8)
        ensures
            r as u64 == get_bits64(self.0, 47, 5),
    {
        let r = get_field64(self.0, 47, 5);
        proof {
            lemma2_to64();
            lemma_mask64_is(5, 0x1f);
        }
        r as u8
    }

    /// Gets the `DecompressedBlockOffsetBits` field.
    pub fn get_decompressed_block_offset_bits(&self) -> (r: u8)
        ensures
            r as u64 == get_bits64(self.0, 42, 5),
    {
        let r = get_field64(self.0, 42, 5);
        proof {
            lemma2_to64();
            lemma_mask64_is(5, 0x1f);
        }
        r as u8
    }

    /// Gets the `PaddingOrItemCounts` field.
    pub fn get_padding_or_item_counts(&self) -> (r: u64)
        ensures
            r as u64 == get_bits64(self.0, 0, 42),
    {
        let r = get_field64(self.0, 0, 42);
        proof {
            lemma2_to64();
            vstd::arithmetic::power2::lemma2_to64_rest();
            lemma_mask64_is(42, 0x3ffffffffff);
        }
        r
    }

    /// Returns true if the header stores `PaddingOrItemCounts` in an extended
    /// 8 byte header, that is when the item counts do not fit within its 42 bits.
    pub fn has_extended_header(&self) -> (r: bool)
        ensures
            r == !spec_can_fit_within_42_bits(
                get_bits64(self.0, 57, 5) as u8,
                get_bits64(self.0, 47, 5) as u8,
                get_bits64(self.0, 52, 5) as u8,
            ),
    {
        !can_fit_within_42_bits(
            self.get_string_pool_size_bits(),
            self.get_block_count_bits(),
            self.get_file_count_bits(),
        )
    }
}

impl Default for Fef64TocHeader {
    fn default() -> (r: Fef64TocHeader)
        ensures
            r.0 == spec_fef64_header_word(false, 0, 0, 0, 0, 0),
    {
        Fef64TocHeader::new(false, 0, 0, 0, 0, 0)
    }
}

/// Reading the fields of a packed FEF64 header gives back the values it was packed with,
/// each truncated to the width of its field, and the flexible format flag set.
pub proof fn lemma_fef64_header_fields(
    has_hash: bool,
    string_pool_size_bits: u8,
    file_count_bits: u8,
    block_count_bits: u8,
    decompressed_block_offset_bits: u8,
    padding_or_item_counts: u64,
)
    ensures
        ({
            let w = spec_fef64_header_word(has_hash, string_pool_size_bits, file_count_bits, block_count_bits, decompressed_block_offset_bits, padding_or_item_counts);
            &&& get_bits64(w, 63, 1) == 1
            &&& (get_bits64(w, 62, 1) == 1) == has_hash
            &&& get_bits64(w, 57, 5) == string_pool_size_bits as u64 % 32
            &&& get_bits64(w, 52, 5) == file_count_bits as u64 % 32
            &&& get_bits64(w, 47, 5) == block_count_bits as u64 % 32
            &&& get_bits64(w, 42, 5) == decompressed_block_offset_bits as u64 % 32
            &&& get_bits64(w, 0, 42) == padding_or_item_counts % 0x400_0000_0000
        }),
{
    let h: u64 = if has_hash { 1 } else { 0 };
    let string_pool_size_bits = string_pool_size_bits as u64;
    let file_count_bits = file_count_bits as u64;
    let block_count_bits = block_count_bits as u64;
    let decompressed_block_offset_bits = decompressed_block_offset_bits as u64;
    broadcast use crate::utilities::bits::group_bit_fields;
    lemma2_to64();
    vstd::arithmetic::power2::lemma2_to64_rest();
    assert(get_bits64(set_bits64(set_bits64(set_bits64(set_bits64(set_bits64(set_bits64(set_bits64(0, 63, 1, 1), 62, 1, h), 57, 5, string_pool_size_bits as u64), 52, 5, file_count_bits as u64), 47, 5, block_count_bits as u64), 42, 5, decompressed_block_offset_bits as u64), 0, 42, padding_or_item_counts), 63, 1) == 1);
    assert(get_bits64(set_bits64(set_bits64(set_bits64(set_bits64(set_bits64(set_bits64(set_bits64(0, 63, 1, 1), 62, 1, h), 57, 5, string_pool_size_bits as u64), 52, 5, file_count_bits as u64), 47, 5, block_count_bits as u64), 42, 5, decompressed_block_offset_bits as u64), 0, 42, padding_or_item_counts), 62, 1) == h);
    assert(get_bits64(set_bits64(set_bits64(set_bits64(set_bits64(set_bits64(set_bits64(set_bits64(0, 63, 1, 1), 62, 1, h), 57, 5, string_pool_size_bits as u64), 52, 5, file_count_bits as u64), 47, 5, block_count_bits as u64), 42, 5, decompressed_block_offset_bits as u64), 0, 42, padding_or_item_counts), 57, 5) == string_pool_size_bits % 32);
    assert(get_bits64(set_bits64(set_bits64(set_bits64(set_bits64(set_bits64(set_bits64(set_bits64(0, 63, 1, 1), 62, 1, h), 57, 5, string_pool_size_bits as u64), 52, 5, file_count_bits as u64), 47, 5, block_count_bits as u64), 42, 5, decompressed_block_offset_bits as u64), 0, 42, padding_or_item_counts), 52, 5) == file_count_bits % 32);
    assert(get_bits64(set_bits64(set_bits64(set_bits64(set_bits64(set_bits64(set_bits64(set_bits64(0, 63, 1, 1), 62, 1, h), 57, 5, string_pool_size_bits as u64), 52, 5, file_count_bits as u64), 47, 5, block_count_bits as u64), 42, 5, decompressed_block_offset_bits as u64), 0, 42, padding_or_item_counts), 47, 5) == block_count_bits % 32);
    assert(get_bits64(set_bits64(set_bits64(set_bits64(set_bits64(set_bits64(set_bits64(set_bits64(0, 63, 1, 1), 62, 1, h), 57, 5, string_pool_size_bits as u64), 52, 5, file_count_bits as u64), 47, 5, block_count_bits as u64), 42, 5, decompressed_block_offset_bits as u64), 0, 42, padding_or_item_counts), 42, 5) == decompressed_block_offset_bits % 32);
    assert(get_bits64(set_bits64(set_bits64(set_bits64(set_bits64(set_bits64(set_bits64(set_bits64(0, 63, 1, 1), 62, 1, h), 57, 5, string_pool_size_bits as u64), 52, 5, file_count_bits as u64), 47, 5, block_count_bits as u64), 42, 5, decompressed_block_offset_bits as u64), 0, 42, padding_or_item_counts), 0, 42) == padding_or_item_counts % 0x400_0000_0000);
}

} // verus!
