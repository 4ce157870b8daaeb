use crate::utilities::bits::{
    lemma_mask64_is,
    get_bits64, get_field64, mask64, set_bits64, set_field64,
};
use crate::utilities::endian::{byte_swap64, u64_to_le};
use vstd::arithmetic::power2::lemma2_to64;
use vstd::prelude::*;

verus! {

/// Maximum string pool size of Preset 3 (u20).
pub const PRESET3_STRING_POOL_SIZE_MAX: u32 = 0xF_FFFF;
/// Maximum block count of Preset 3 (u16).
pub const PRESET3_BLOCK_COUNT_MAX: u32 = 0xFFFF;
/// Maximum file count of Preset 3 (u16).
pub const PRESET3_FILE_COUNT_MAX: u32 = 0xFFFF;
/// Maximum decompressed block offset of Preset 3; Preset 3 stores no offsets.
pub const PRESET3_MAX_DECOMPRESSED_BLOCK_OFFSET: u32 = 0;
/// Maximum file size of Preset 3 (4 GiB).
pub const PRESET3_MAX_FILE_SIZE: u32 = 0xFFFF_FFFF;

/// The packed word that [`Preset3TocHeader::new`] produces.
pub open spec fn spec_preset3_header_word(has_hash: bool, string_pool_size: u32, block_count: u16, file_count: u16) -> u64 {
    set_bits64(set_bits64(set_bits64(set_bits64(set_bits64(set_bits64(set_bits64(0, 63, 1, 0), 61, 2, 3), 60, 1, if has_hash { 1 } else { 0 }), 40, 20, string_pool_size as u64), 24, 16, block_count as u64), 8, 16, file_count as u64), 0, 8, 0)
}

/// Represents the TOC Header structure for Preset 3.
///
/// | Bits    | Field               |
/// |---------|---------------------|
/// | 63      | `IsFlexibleFormat` (always 0) |
/// | 62 - 61 | `Preset` (always 3) |
/// | 60      | `HasHash`           |
/// | 59 - 40 | `StringPoolSize` (u20) |
/// | 39 - 24 | `BlockCount` (u16)  |
/// | 23 - 8  | `FileCount` (u16)   |
/// | 7 - 0   | `Padding` (u8)      |
#[derive(Clone, Copy, PartialEq, Eq, Hash, Debug)]
pub struct Preset3TocHeader(pub u64);

impl Preset3TocHeader {
    /// Size of the header in bytes.
    pub const SIZE_BYTES: usize = 8;

    /// Initializes the header with `Preset` set to 3 and a zero padding; the string pool
    /// size is truncated to its 20 bits.
    pub fn new(has_hash: bool, string_pool_size: u32, block_count: u16, file_count: u16) -> (r: Preset3TocHeader)
        ensures
            r.0 == spec_preset3_header_word(has_hash, string_pool_size, block_count, file_count),
    {
        let mut w: u64 = 0;
        w = set_field64(w, 63, 1, 0);
        w = set_field64(w, 61, 2, 3);
        w = set_field64(w, 60, 1, if has_hash { 1 } else { 0 });
        w = set_field64(w, 40, 20, string_pool_size as u64);
        w = set_field64(w, 24, 16, block_count as u64);
        w = set_field64(w, 8, 16, file_count as u64);
        w = set_field64(w, 0, 8, 0);
        Preset3TocHeader(w)
    }

    /// Creates a header from a raw value; the value is converted to little endian
    /// and not validated.
    pub fn from_raw(raw: u64) -> (r: Preset3TocHeader)
        ensures
            r.0 == raw || r.0 == byte_swap64(raw),
    {
        Preset3TocHeader(u64_to_le(raw))
    }

    /// Converts the header to little-endian format.
    pub fn to_le(&self) -> (r: Preset3TocHeader)
        ensures
            r.0 == self.0 || r.0 == byte_swap64(self.0),
    {
        Preset3TocHeader(u64_to_le(self.0))
    }

    /// Gets the `IsFlexibleFormat` field.
    pub fn get_is_flexible_format(&self) -> (r: bool)
        ensures
            r == (get_bits64(self.0, 63, 1) == 1),
    {
        get_field64(self.0, 63, 1) == 1
    }

    /// Gets the `Preset` field.
    pub fn get_preset(&self) -> (r: u8)
        ensures
            r as u64 == get_bits64(self.0, 61, 2),
    {
        let r = get_field64(self.0, 61, 2);
        proof {
            lemma2_to64();
            lemma_mask64_is(2, 0x3);
        }
        r as u8
    }

    /// Gets the `HasHash` field.
    pub fn get_has_hash(&self) -> (r: bool)
        ensures
            r == (get_bits64(self.0, 60, 1) == 1),
    {
        get_field64(self.0, 60, 1) == 1
    }

    /// Gets the `StringPoolSize` field.
    pub fn get_string_pool_size(&self) -> (r: u32)
        ensures
            r as u64 == get_bits64(self.0, 40, 20),
    {
        let r = get_field64(self.0, 40, 20);
        proof {
            lemma2_to64();
            lemma_mask64_is(20, 0xfffff);
        }
        r as u32
    }

    /// Gets the `BlockCount` field.
    pub fn get_block_count(&self) -> (r: u16)
        ensures
            r as u64 == get_bits64(self.0, 24, 16),
    {
        let r = get_field64(self.0, 24, 16);
        proof {
            lemma2_to64();
            lemma_mask64_is(16, 0xffff);
        }
        r as u16
    }

    /// Gets the `FileCount` field.
    pub fn get_file_count(&self) -> (r: u16)
        ensures
            r as u64 == get_bits64(self.0, 8, 16),
    {
        let r = get_field64(self.0, 8, 16);
        proof {
            lemma2_to64();
            lemma_mask64_is(16, 0xffff);
        }
        r as u16
    }

    /// Gets the `Padding` field.
    pub fn get_padding(&self) -> (r: u8)
        ensures
            r as u64 == get_bits64(self.0, 0, 8),
    {
        let r = get_field64(self.0, 0, 8);
        proof {
            lemma2_to64();
            lemma_mask64_is(8, 0xff);
        }
        r as u8
    }
}

impl Default for Preset3TocHeader {
    fn default() -> (r: Preset3TocHeader)
        ensures
            r.0 == spec_preset3_header_word(true, 0, 0, 0),
    {
        Preset3TocHeader::new(true, 0, 0, 0)
    }
}

/// Reading the fields of a packed Preset 3 header gives back the values it was packed with,
/// the string pool size truncated to its 20 bits.
pub proof fn lemma_preset3_header_fields(has_hash: bool, string_pool_size: u32, block_count: u16, file_count: u16)
    ensures
        ({
            let w = spec_preset3_header_word(has_hash, string_pool_size, block_count, file_count);
            &&& get_bits64(w, 63, 1) == 0
            &&& get_bits64(w, 61, 2) == 3
            &&& (get_bits64(w, 60, 1) == 1) == has_hash
            &&& get_bits64(w, 40, 20) == string_pool_size as u64 % 0x10_0000
            &&& get_bits64(w, 24, 16) == block_count as u64
            &&& get_bits64(w, 8, 16) == file_count as u64
            &&& get_bits64(w, 0, 8) == 0
        }),
{
    let h: u64 = if has_hash { 1 } else { 0 };
    let string_pool_size = string_pool_size as u64;
    let block_count = block_count as u64;
    let file_count = file_count as u64;
    broadcast use crate::utilities::bits::group_bit_fields;
    lemma2_to64();
    assert(get_bits64(set_bits64(set_bits64(set_bits64(set_bits64(set_bits64(set_bits64(set_bits64(0, 63, 1, 0), 61, 2, 3), 60, 1, h), 40, 20, string_pool_size as u64), 24, 16, block_count as u64), 8, 16, file_count as u64), 0, 8, 0), 63, 1) == 0);
    assert(get_bits64(set_bits64(set_bits64(set_bits64(set_bits64(set_bits64(set_bits64(set_bits64(0, 63, 1, 0), 61, 2, 3), 60, 1, h), 40, 20, string_pool_size as u64), 24, 16, block_count as u64), 8, 16, file_count as u64), 0, 8, 0), 61, 2) == 3);
    assert(get_bits64(set_bits64(set_bits64(set_bits64(set_bits64(set_bits64(set_bits64(set_bits64(0, 63, 1, 0), 61, 2, 3), 60, 1, h), 40, 20, string_pool_size as u64), 24, 16, block_count as u64), 8, 16, file_count as u64), 0, 8, 0), 60, 1) == h);
    assert(get_bits64(set_bits64(set_bits64(set_bits64(set_bits64(set_bits64(set_bits64(set_bits64(0, 63, 1, 0), 61, 2, 3), 60, 1, h), 40, 20, string_pool_size as u64), 24, 16, block_count as u64), 8, 16, file_count as u64), 0, 8, 0), 40, 20) == string_pool_size % 0x10_0000);
    assert(get_bits64(set_bits64(set_bits64(set_bits64(set_bits64(set_bits64(set_bits64(set_bits64(0, 63, 1, 0), 61, 2, 3), 60, 1, h), 40, 20, string_pool_size as u64), 24, 16, block_count as u64), 8, 16, file_count as u64), 0, 8, 0), 24, 16) == block_count) by (bit_vector) requires block_count < 0x10000;
    assert(get_bits64(set_bits64(set_bits64(set_bits64(set_bits64(set_bits64(set_bits64(set_bits64(0, 63, 1, 0), 61, 2, 3), 60, 1, h), 40, 20, string_pool_size as u64), 24, 16, block_count as u64), 8, 16, file_count as u64), 0, 8, 0), 8, 16) == file_count) by (bit_vector) requires file_count < 0x10000;
    assert(get_bits64(set_bits64(set_bits64(set_bits64(set_bits64(set_bits64(set_bits64(set_bits64(0, 63, 1, 0), 61, 2, 3), 60, 1, h), 40, 20, string_pool_size as u64), 24, 16, block_count as u64), 8, 16, file_count as u64), 0, 8, 0), 0, 8) == 0);
}

} // verus!
