use crate::utilities::bits::{
    lemma_mask64_is,
    get_bits64, get_field64, mask64, set_bits64, set_field64,
};
use crate::utilities::endian::{byte_swap64, u64_to_le};
use crate::headers::enums::table_of_contents_version::{spec_version_from_u8, spec_version_to_u8, TableOfContentsVersion};
use vstd::arithmetic::power2::lemma2_to64;
use vstd::prelude::*;

verus! {

/// Maximum possible size of the string pool; constrained by the 24 bit
/// `string_pool_size` field of the table of contents header.
pub const MAX_STRING_POOL_SIZE: usize = 16777215;

/// The packed word that [`NativeTocHeader::new`] produces.
pub open spec fn spec_toc_header_v0v1_word(file_count: u32, block_count: u32, string_pool_size: u32, version: u8) -> u64 {
    set_bits64(set_bits64(set_bits64(set_bits64(0, 0, 20, file_count as u64), 20, 18, block_count as u64), 38, 24, string_pool_size as u64), 62, 2, version as u64)
}

/// Represents the native structure of the Table of Contents header
/// for Version 0 and Version 1 of the Table of Contents.
///
/// | Bits    | Field                     |
/// |---------|---------------------------|
/// | 63 - 62 | `version` (u2)            |
/// | 61 - 38 | `string_pool_size` (u24)  |
/// | 37 - 20 | `block_count` (u18)       |
/// | 19 - 0  | `file_count` (u20)        |
#[derive(Clone, Copy, PartialEq, Eq, Hash, Debug)]
pub struct NativeTocHeader(pub u64);

impl NativeTocHeader {
    /// Size of the header in bytes.
    pub const SIZE_BYTES: usize = 8;

    /// `u20` The FileCount.
    pub fn file_count(&self) -> (r: u32)
        ensures
            r as u64 == get_bits64(self.0, 0, 20),
    {
        let r = get_field64(self.0, 0, 20);
        proof {
            lemma2_to64();
            lemma_mask64_is(20, 0xfffff);
        }
        r as u32
    }

    /// `u18` The BlockCount.
    pub fn block_count(&self) -> (r: u32)
        ensures
            r as u64 == get_bits64(self.0, 20, 18),
    {
        let r = get_field64(self.0, 20, 18);
        proof {
            lemma2_to64();
            lemma_mask64_is(18, 0x3ffff);
        }
        r as u32
    }

    /// `u24` The size of the (compressed) string pool.
    pub fn string_pool_size(&self) -> (r: u32)
        ensures
            r as u64 == get_bits64(self.0, 38, 24),
    {
        let r = get_field64(self.0, 38, 24);
        proof {
            lemma2_to64();
            lemma_mask64_is(24, 0xffffff);
        }
        r as u32
    }

    /// `u2` The version.
    pub fn version(&self) -> (r: u8)
        ensures
            r as u64 == get_bits64(self.0, 62, 2),
    {
        let r = get_field64(self.0, 62, 2);
        proof {
            lemma2_to64();
            lemma_mask64_is(2, 0x3);
        }
        r as u8
    }

    /// Initializes the header with given data; each value is truncated to its field.
    pub fn new(
        file_count: u32,
        block_count: u32,
        string_pool_size: u32,
        version: TableOfContentsVersion,
    ) -> (r: NativeTocHeader)
        ensures
            r.0 == spec_toc_header_v0v1_word(file_count, block_count, string_pool_size, spec_version_to_u8(version)),
    {
        let mut w: u64 = 0;
        w = set_field64(w, 0, 20, file_count as u64);
        w = set_field64(w, 20, 18, block_count as u64);
        w = set_field64(w, 38, 24, string_pool_size as u64);
        w = set_field64(w, 62, 2, version.to_u8() as u64);
        NativeTocHeader(w)
    }

    /// Creates a header from a raw value without any validation.
    pub fn from_raw(raw: u64) -> (r: NativeTocHeader)
        ensures
            r.0 == raw,
    {
        NativeTocHeader(raw)
    }

    /// Converts the header to little-endian format.
    pub fn to_le(&self) -> (r: NativeTocHeader)
        ensures
            r.0 == self.0 || r.0 == byte_swap64(self.0),
    {
        NativeTocHeader(u64_to_le(self.0))
    }

    /// Gets the Version as TableOfContentsVersion enum.
    pub fn get_version(&self) -> (r: Result<TableOfContentsVersion, u8>)
        ensures
            r == spec_version_from_u8(get_bits64(self.0, 62, 2) as u8),
    {
        TableOfContentsVersion::try_from_u8(self.version())
    }
}

impl Default for NativeTocHeader {
    fn default() -> (r: NativeTocHeader)
        ensures
            r.0 == spec_toc_header_v0v1_word(0, 0, 0, 0),
    {
        NativeTocHeader::new(0, 0, 0, TableOfContentsVersion::V0)
    }
}

/// Reading the fields of a packed V0/V1 header gives back the values it was packed with,
/// each truncated to the width of its field.
pub proof fn lemma_toc_header_v0v1_fields(file_count: u32, block_count: u32, string_pool_size: u32, version: u8)
    ensures
        ({
            let w = spec_toc_header_v0v1_word(file_count, block_count, string_pool_size, version);
            &&& get_bits64(w, 0, 20) == file_count as u64 % 0x100000
            &&& get_bits64(w, 20, 18) == block_count as u64 % 0x40000
            &&& get_bits64(w, 38, 24) == string_pool_size as u64 % 0x1000000
            &&& get_bits64(w, 62, 2) == version as u64 % 4
        }),
{
    let file_count = file_count as u64;
    let block_count = block_count as u64;
    let string_pool_size = string_pool_size as u64;
    let version = version as u64;
    broadcast use crate::utilities::bits::group_bit_fields;
    lemma2_to64();
    assert(get_bits64(set_bits64(set_bits64(set_bits64(set_bits64(0, 0, 20, file_count as u64), 20, 18, block_count as u64), 38, 24, string_pool_size as u64), 62, 2, version as u64), 0, 20) == file_count % 0x100000);
    assert(get_bits64(set_bits64(set_bits64(set_bits64(set_bits64(0, 0, 20, file_count as u64), 20, 18, block_count as u64), 38, 24, string_pool_size as u64), 62, 2, version as u64), 20, 18) == block_count % 0x40000);
    assert(get_bits64(set_bits64(set_bits64(set_bits64(set_bits64(0, 0, 20, file_count as u64), 20, 18, block_count as u64), 38, 24, string_pool_size as u64), 62, 2, version as u64), 38, 24) == string_pool_size % 0x1000000);
    assert(get_bits64(set_bits64(set_bits64(set_bits64(set_bits64(0, 0, 20, file_count as u64), 20, 18, block_count as u64), 38, 24, string_pool_size as u64), 62, 2, version as u64), 62, 2) == version % 4);
}

} // verus!
