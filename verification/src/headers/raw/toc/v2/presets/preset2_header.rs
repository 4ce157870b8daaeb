use crate::utilities::bits::{
    lemma_mask64_is,
    get_bits64, get_field64, mask64, set_bits64, set_field64,
};
use crate::utilities::endian::{byte_swap64, u64_to_le};
use vstd::arithmetic::power2::lemma2_to64;
use vstd::prelude::*;

verus! {

/// The packed word that [`Preset2TocHeader::new`] produces before the byte order conversion.
pub open spec fn spec_preset2_header_word(string_pool_size: u32, block_count: u32, file_count: u32) -> u64 {
    set_bits64(set_bits64(set_bits64(set_bits64(set_bits64(0, 63, 1, 0), 61, 2, 2), 40, 21, string_pool_size as u64), 18, 22, block_count as u64), 0, 18, file_count as u64)
}

/// Represents the TOC Header structure for Preset 2; same layout as Preset 0,
/// with `Preset` always `2`.
#[derive(Clone, Copy, PartialEq, Eq, Hash, Debug)]
pub struct Preset2TocHeader(pub u64);

impl Preset2TocHeader {
    /// Size of the header in bytes.
    pub const SIZE_BYTES: usize = 8;

    /// Initializes the header with `Preset` set to 2; each value is truncated to its field.
    /// The returned header is in little-endian format.
    pub fn new(string_pool_size: u32, block_count: u32, file_count: u32) -> (r: Preset2TocHeader)
        ensures
            r.0 == spec_preset2_header_word(string_pool_size, block_count, file_count)
                || r.0 == byte_swap64(spec_preset2_header_word(string_pool_size, block_count, file_count)),
    {
        let mut w: u64 = 0;
        w = set_field64(w, 63, 1, 0);
        w = set_field64(w, 61, 2, 2);
        w = set_field64(w, 40, 21, string_pool_size as u64);
        w = set_field64(w, 18, 22, block_count as u64);
        w = set_field64(w, 0, 18, file_count as u64);
        Preset2TocHeader(w).to_le()
    }

    /// Creates a header from a raw value; the value is converted to little endian
    /// and not validated.
    pub fn from_raw(raw: u64) -> (r: Preset2TocHeader)
        ensures
            r.0 == raw || r.0 == byte_swap64(raw),
    {
        Preset2TocHeader(u64_to_le(raw))
    }

    /// Converts the header to little-endian format.
    pub fn to_le(&self) -> (r: Preset2TocHeader)
        ensures
            r.0 == self.0 || r.0 == byte_swap64(self.0),
    {
        Preset2TocHeader(u64_to_le(self.0))
    }

    /// Gets the `IsFlexibleFormat` field.
    pub fn get_is_flexible_format(&self) -> (r: bool)
        ensures
            r == (get_bits64(self.0, 63, 1) == 1),
    {
        get_field64(self.0, 63, 1) == 1
    }

    /// Gets the `Preset` field.
    pub fn get_preset(&self) -> (r: u8)
        ensures
            r as u64 == get_bits64(self.0, 61, 2),
    {
        let r = get_field64(self.0, 61, 2);
        proof {
            lemma2_to64();
            lemma_mask64_is(2, 0x3);
        }
        r as u8
    }

    /// Gets the `StringPoolSize` field.
    pub fn get_string_pool_size(&self) -> (r: u32)
        ensures
            r as u64 == get_bits64(self.0, 40, 21),
    {
        let r = get_field64(self.0, 40, 21);
        proof {
            lemma2_to64();
            lemma_mask64_is(21, 0x1fffff);
        }
        r as u32
    }

    /// Gets the `BlockCount` field.
    pub fn get_block_count(&self) -> (r: u32)
        ensures
            r as u64 == get_bits64(self.0, 18, 22),
    {
        let r = get_field64(self.0, 18, 22);
        proof {
            lemma2_to64();
            lemma_mask64_is(22, 0x3fffff);
        }
        r as u32
    }

    /// Gets the `FileCount` field.
    pub fn get_file_count(&self) -> (r: u32)
        ensures
            r as u64 == get_bits64(self.0, 0, 18),
    {
        let r = get_field64(self.0, 0, 18);
        proof {
            lemma2_to64();
            lemma_mask64_is(18, 0x3ffff);
        }
        r as u32
    }
}

impl Default for Preset2TocHeader {
    fn default() -> (r: Preset2TocHeader)
        ensures
            r.0 == spec_preset2_header_word(0, 0, 0) || r.0 == byte_swap64(spec_preset2_header_word(0, 0, 0)),
    {
        Preset2TocHeader::new(0, 0, 0)
    }
}

/// Reading the fields of a packed Preset2 header gives back the values it was packed with,
/// each truncated to the width of its field.
pub proof fn lemma_preset2_header_fields(string_pool_size: u32, block_count: u32, file_count: u32)
    ensures
        ({
            let w = spec_preset2_header_word(string_pool_size, block_count, file_count);
            &&& get_bits64(w, 63, 1) == 0
            &&& get_bits64(w, 61, 2) == 2
            &&& get_bits64(w, 40, 21) == string_pool_size as u64 % 0x20_0000
            &&& get_bits64(w, 18, 22) == block_count as u64 % 0x40_0000
            &&& get_bits64(w, 0, 18) == file_count as u64 % 0x4_0000
        }),
{

    let string_pool_size = string_pool_size as u64;
    let block_count = block_count as u64;
    let file_count = file_count as u64;
    broadcast use crate::utilities::bits::group_bit_fields;
    lemma2_to64();
    assert(get_bits64(set_bits64(set_bits64(set_bits64(set_bits64(set_bits64(0, 63, 1, 0), 61, 2, 2), 40, 21, string_pool_size as u64), 18, 22, block_count as u64), 0, 18, file_count as u64), 63, 1) == 0);
    assert(get_bits64(set_bits64(set_bits64(set_bits64(set_bits64(set_bits64(0, 63, 1, 0), 61, 2, 2), 40, 21, string_pool_size as u64), 18, 22, block_count as u64), 0, 18, file_count as u64), 61, 2) == 2);
    assert(get_bits64(set_bits64(set_bits64(set_bits64(set_bits64(set_bits64(0, 63, 1, 0), 61, 2, 2), 40, 21, string_pool_size as u64), 18, 22, block_count as u64), 0, 18, file_count as u64), 40, 21) == string_pool_size % 0x20_0000);
    assert(get_bits64(set_bits64(set_bits64(set_bits64(set_bits64(set_bits64(0, 63, 1, 0), 61, 2, 2), 40, 21, string_pool_size as u64), 18, 22, block_count as u64), 0, 18, file_count as u64), 18, 22) == block_count % 0x40_0000);
    assert(get_bits64(set_bits64(set_bits64(set_bits64(set_bits64(set_bits64(0, 63, 1, 0), 61, 2, 2), 40, 21, string_pool_size as u64), 18, 22, block_count as u64), 0, 18, file_count as u64), 0, 18) == file_count % 0x4_0000);
}

} // verus!
