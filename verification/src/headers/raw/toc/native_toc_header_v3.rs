use crate::utilities::bits::{
    lemma_mask64_is,
    get_bits64, get_field64, lemma_get_bits_bound64, mask64, set_bits64, set_field64,
};
use crate::utilities::endian::{byte_swap64, u64_to_le};
use crate::headers::enums::table_of_contents_version::{spec_version_from_u8, TableOfContentsVersion};
use vstd::arithmetic::power2::lemma2_to64;
use vstd::prelude::*;

verus! {

/// Maximum possible size of the string pool for V3.
/// This is constrained by the `StringPoolSize` field (29 bits).
pub const MAX_STRING_POOL_SIZE_V3: usize = 536_870_911;

/// The packed word that [`NativeTocHeaderV3::init`] produces before the byte order conversion.
pub open spec fn spec_toc_header_v3_word(file_count: u32, block_count: u32, string_pool_size: u32) -> u64 {
    set_bits64(
        set_bits64(
            set_bits64(
                set_bits64(set_bits64(0, 33, 29, string_pool_size as u64), 25, 8, block_count as u64),
                17,
                8,
                file_count as u64,
            ),
            62,
            2,
            3,
        ),
        0,
        17,
        0,
    )
}

/// Represents the native structure of the Table of Contents header
/// for Version 3 of the Table of Contents.
///
/// | Bits    | Field                     |
/// |---------|---------------------------|
/// | 63 - 62 | `version` (u2)            |
/// | 61 - 33 | `string_pool_size` (u29)  |
/// | 32 - 25 | `block_count` (u8)        |
/// | 24 - 17 | `file_count` (u8)         |
/// | 16 - 0  | `padding` (u17)           |
///
/// It is assumed that [NativeTocHeaderV3] is always little endian.
#[derive(Clone, Copy, PartialEq, Eq, Hash, Debug)]
pub struct NativeTocHeaderV3(pub u64);

impl NativeTocHeaderV3 {
    /// Size of the header in bytes.
    pub const SIZE_BYTES: usize = 8;

    /// `u17` Padding.
    pub fn padding(&self) -> (r: u64)
        ensures
            r as u64 == get_bits64(self.0, 0, 17),
    {
        let r = get_field64(self.0, 0, 17);
        proof {
            lemma2_to64();
            lemma_mask64_is(17, 0x1ffff);
        }
        r
    }

    /// `u8` The FileCount.
    pub fn file_count(&self) -> (r: u64)
        ensures
            r as u64 == get_bits64(self.0, 17, 8),
    {
        let r = get_field64(self.0, 17, 8);
        proof {
            lemma2_to64();
            lemma_mask64_is(8, 0xff);
        }
        r
    }

    /// `u8` The BlockCount.
    pub fn block_count(&self) -> (r: u64)
        ensures
            r as u64 == get_bits64(self.0, 25, 8),
    {
        let r = get_field64(self.0, 25, 8);
        proof {
            lemma2_to64();
            lemma_mask64_is(8, 0xff);
        }
        r
    }

    /// `u29` The size of the (compressed) string pool.
    pub fn string_pool_size(&self) -> (r: u64)
        ensures
            r as u64 == get_bits64(self.0, 33, 29),
    {
        let r = get_field64(self.0, 33, 29);
        proof {
            lemma2_to64();
            lemma_mask64_is(29, 0x1fffffff);
        }
        r
    }

    /// `u2` The version.
    pub fn version(&self) -> (r: u8)
        ensures
            r as u64 == get_bits64(self.0, 62, 2),
    {
        let r = get_field64(self.0, 62, 2);
        proof {
            lemma2_to64();
            lemma_mask64_is(2, 0x3);
        }
        r as u8
    }

    /// Initializes the header with given data; each count is truncated to its field,
    /// the version is set to 3 and the padding to zero. The returned header is in
    /// little-endian format.
    pub fn init(file_count: u32, block_count: u32, string_pool_size: u32) -> (r: NativeTocHeaderV3)
        ensures
            r.0 == spec_toc_header_v3_word(file_count, block_count, string_pool_size)
                || r.0 == byte_swap64(spec_toc_header_v3_word(file_count, block_count, string_pool_size)),
    {
        let mut w: u64 = 0;
        w = set_field64(w, 33, 29, string_pool_size as u64);
        w = set_field64(w, 25, 8, block_count as u64);
        w = set_field64(w, 17, 8, file_count as u64);
        w = set_field64(w, 62, 2, 3);
        w = set_field64(w, 0, 17, 0);
        NativeTocHeaderV3(w).to_le()
    }

    /// Creates a header from a raw value; the value is converted to little endian
    /// and not validated.
    pub fn from_raw(raw: u64) -> (r: NativeTocHeaderV3)
        ensures
            r.0 == raw || r.0 == byte_swap64(raw),
    {
        NativeTocHeaderV3(u64_to_le(raw))
    }

    /// Converts the header to little-endian format.
    pub fn to_le(&self) -> (r: NativeTocHeaderV3)
        ensures
            r.0 == self.0 || r.0 == byte_swap64(self.0),
    {
        NativeTocHeaderV3(u64_to_le(self.0))
    }

    /// Gets the Version as TableOfContentsVersion enum.
    pub fn get_version(&self) -> (r: Result<TableOfContentsVersion, u8>)
        ensures
            r == spec_version_from_u8(get_bits64(self.0, 62, 2) as u8),
    {
        TableOfContentsVersion::try_from_u8(self.version())
    }
}

impl Default for NativeTocHeaderV3 {
    fn default() -> (r: NativeTocHeaderV3)
        ensures
            r.0 == spec_toc_header_v3_word(0, 0, 0) || r.0 == byte_swap64(spec_toc_header_v3_word(0, 0, 0)),
    {
        NativeTocHeaderV3::init(0, 0, 0)
    }
}

/// Reading the fields of a packed V3 header gives back the values it was packed with,
/// each truncated to the width of its field, the version 3 and a zero padding.
pub proof fn lemma_toc_header_v3_fields(file_count: u32, block_count: u32, string_pool_size: u32)
    ensures
        ({
            let w = spec_toc_header_v3_word(file_count, block_count, string_pool_size);
            &&& get_bits64(w, 17, 8) == file_count as u64 % 0x100
            &&& get_bits64(w, 25, 8) == block_count as u64 % 0x100
            &&& get_bits64(w, 33, 29) == string_pool_size as u64 % 0x2000_0000
            &&& get_bits64(w, 62, 2) == 3
            &&& get_bits64(w, 0, 17) == 0
        }),
{
    let f = file_count as u64;
    let b = block_count as u64;
    let s = string_pool_size as u64;
    broadcast use crate::utilities::bits::group_bit_fields;
    lemma2_to64();
    assert(get_bits64(set_bits64(set_bits64(set_bits64(set_bits64(set_bits64(0, 33, 29, s), 25, 8, b), 17, 8, f), 62, 2, 3), 0, 17, 0), 17, 8) == f % 0x100);
    assert(get_bits64(set_bits64(set_bits64(set_bits64(set_bits64(set_bits64(0, 33, 29, s), 25, 8, b), 17, 8, f), 62, 2, 3), 0, 17, 0), 25, 8) == b % 0x100);
    assert(get_bits64(set_bits64(set_bits64(set_bits64(set_bits64(set_bits64(0, 33, 29, s), 25, 8, b), 17, 8, f), 62, 2, 3), 0, 17, 0), 33, 29) == s % 0x2000_0000);
    assert(get_bits64(set_bits64(set_bits64(set_bits64(set_bits64(set_bits64(0, 33, 29, s), 25, 8, b), 17, 8, f), 62, 2, 3), 0, 17, 0), 62, 2) == 3);
    assert(get_bits64(set_bits64(set_bits64(set_bits64(set_bits64(set_bits64(0, 33, 29, s), 25, 8, b), 17, 8, f), 62, 2, 3), 0, 17, 0), 0, 17) == 0);
}

} // verus!
