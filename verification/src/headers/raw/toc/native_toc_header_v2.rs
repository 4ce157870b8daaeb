use crate::utilities::bits::{
    lemma_mask64_is,
    get_bits64, get_field64, lemma_get_bits_bound64, mask64, set_bits64, set_field64,
};
use crate::utilities::endian::{byte_swap64, u64_to_le};
use crate::headers::enums::table_of_contents_version::{spec_version_from_u8, TableOfContentsVersion};
use vstd::arithmetic::power2::lemma2_to64;
use vstd::prelude::*;

verus! {

/// The packed word that [`NativeTocHeaderV2::init`] produces before the byte order conversion.
pub open spec fn spec_toc_header_v2_word(file_count: u32, block_count: u32, string_pool_size: u32) -> u64 {
    set_bits64(
        set_bits64(
            set_bits64(set_bits64(0, 38, 24, string_pool_size as u64), 18, 20, block_count as u64),
            0,
            18,
            file_count as u64,
        ),
        62,
        2,
        2,
    )
}

/// Represents the native structure of the Table of Contents header
/// for Version 2 of the Table of Contents.
///
/// | Bits    | Field                     |
/// |---------|---------------------------|
/// | 63 - 62 | `version` (u2)            |
/// | 61 - 38 | `string_pool_size` (u24)  |
/// | 37 - 18 | `block_count` (u20)       |
/// | 17 - 0  | `file_count` (u18)        |
///
/// It is assumed that [NativeTocHeaderV2] is always little endian.
#[derive(Clone, Copy, PartialEq, Eq, Hash, Debug)]
pub struct NativeTocHeaderV2(pub u64);

impl NativeTocHeaderV2 {
    /// Size of the header in bytes.
    pub const SIZE_BYTES: usize = 8;

    /// `u18` The FileCount.
    pub fn file_count(&self) -> (r: u64)
        ensures
            r as u64 == get_bits64(self.0, 0, 18),
    {
        let r = get_field64(self.0, 0, 18);
        proof {
            lemma2_to64();
            lemma_mask64_is(18, 0x3ffff);
        }
        r
    }

    /// `u20` The BlockCount.
    pub fn block_count(&self) -> (r: u64)
        ensures
            r as u64 == get_bits64(self.0, 18, 20),
    {
        let r = get_field64(self.0, 18, 20);
        proof {
            lemma2_to64();
            lemma_mask64_is(20, 0xfffff);
        }
        r
    }

    /// `u24` The size of the (compressed) string pool.
    pub fn string_pool_size(&self) -> (r: u64)
        ensures
            r as u64 == get_bits64(self.0, 38, 24),
    {
        let r = get_field64(self.0, 38, 24);
        proof {
            lemma2_to64();
            lemma_mask64_is(24, 0xffffff);
        }
        r
    }

    /// `u2` The version.
    pub fn version(&self) -> (r: u8)
        ensures
            r as u64 == get_bits64(self.0, 62, 2),
    {
        let r = get_field64(self.0, 62, 2);
        proof {
            lemma2_to64();
            lemma_mask64_is(2, 0x3);
        }
        r as u8
    }

    /// Initializes the header with given data; each count is truncated to its field
    /// and the version is set to 2. The returned header is in little-endian format.
    pub fn init(file_count: u32, block_count: u32, string_pool_size: u32) -> (r: NativeTocHeaderV2)
        ensures
            r.0 == spec_toc_header_v2_word(file_count, block_count, string_pool_size)
                || r.0 == byte_swap64(spec_toc_header_v2_word(file_count, block_count, string_pool_size)),
    {
        let mut w: u64 = 0;
        w = set_field64(w, 38, 24, string_pool_size as u64);
        w = set_field64(w, 18, 20, block_count as u64);
        w = set_field64(w, 0, 18, file_count as u64);
        w = set_field64(w, 62, 2, 2);
        NativeTocHeaderV2(w).to_le()
    }

    /// Creates a header from a raw value; the value is converted to little endian
    /// and not validated.
    pub fn from_raw(raw: u64) -> (r: NativeTocHeaderV2)
        ensures
            r.0 == raw || r.0 == byte_swap64(raw),
    {
        NativeTocHeaderV2(u64_to_le(raw))
    }

    /// Converts the header to little-endian format.
    pub fn to_le(&self) -> (r: NativeTocHeaderV2)
        ensures
            r.0 == self.0 || r.0 == byte_swap64(self.0),
    {
        NativeTocHeaderV2(u64_to_le(self.0))
    }

    /// Gets the Version as TableOfContentsVersion enum.
    pub fn get_version(&self) -> (r: Result<TableOfContentsVersion, u8>)
        ensures
            r == spec_version_from_u8(get_bits64(self.0, 62, 2) as u8),
    {
        TableOfContentsVersion::try_from_u8(self.version())
    }
}

impl Default for NativeTocHeaderV2 {
    fn default() -> (r: NativeTocHeaderV2)
        ensures
            r.0 == spec_toc_header_v2_word(0, 0, 0) || r.0 == byte_swap64(spec_toc_header_v2_word(0, 0, 0)),
    {
        NativeTocHeaderV2::init(0, 0, 0)
    }
}

/// Reading the fields of a packed V2 header gives back the values it was packed with,
/// each truncated to the width of its field, and the version 2.
pub proof fn lemma_toc_header_v2_fields(file_count: u32, block_count: u32, string_pool_size: u32)
    ensures
        ({
            let w = spec_toc_header_v2_word(file_count, block_count, string_pool_size);
            &&& get_bits64(w, 0, 18) == file_count as u64 % 0x40000
            &&& get_bits64(w, 18, 20) == block_count as u64 % 0x100000
            &&& get_bits64(w, 38, 24) == string_pool_size as u64 % 0x1000000
            &&& get_bits64(w, 62, 2) == 2
        }),
{
    let f = file_count as u64;
    let b = block_count as u64;
    let s = string_pool_size as u64;
    broadcast use crate::utilities::bits::group_bit_fields;
    lemma2_to64();
    assert(get_bits64(set_bits64(set_bits64(set_bits64(set_bits64(0, 38, 24, s), 18, 20, b), 0, 18, f), 62, 2, 2), 0, 18) == f % 0x40000);
    assert(get_bits64(set_bits64(set_bits64(set_bits64(set_bits64(0, 38, 24, s), 18, 20, b), 0, 18, f), 62, 2, 2), 18, 20) == b % 0x100000);
    assert(get_bits64(set_bits64(set_bits64(set_bits64(set_bits64(0, 38, 24, s), 18, 20, b), 0, 18, f), 62, 2, 2), 38, 24) == s % 0x1000000);
    assert(get_bits64(set_bits64(set_bits64(set_bits64(set_bits64(0, 38, 24, s), 18, 20, b), 0, 18, f), 62, 2, 2), 62, 2) == 2);
}

} // verus!
