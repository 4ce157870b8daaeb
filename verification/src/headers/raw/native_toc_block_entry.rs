use crate::api::enums::compression_preference::{
    spec_compression_code, spec_compression_from_code, CompressionPreference,
};
use crate::utilities::bits::{get_bits64, get_field32, set_bits64, set_field32};
use vstd::arithmetic::power2::lemma2_to64;
use vstd::prelude::*;

verus! {

/// The packed word of a block entry.
pub open spec fn spec_block_entry_word(compressed_block_size: u32, compression: CompressionPreference) -> u64 {
    set_bits64(set_bits64(0, 3, 29, compressed_block_size as u64), 0, 3, spec_compression_code(compression) as u64)
}

/// A block entry of the table of contents.
///
/// | Bits    | Field                            |
/// |---------|----------------------------------|
/// | 31 - 3  | `compressed_block_size` (u29)    |
/// | 2 - 0   | `compression` (u3)               |
#[derive(Debug, PartialEq, Eq, Clone, Copy, Structural)]
pub struct NativeTocBlockEntry(pub u32);

impl NativeTocBlockEntry {
    /// Packs a block entry; the size is truncated to its field.
    pub fn new(compressed_block_size: u32, compression: CompressionPreference) -> (r: NativeTocBlockEntry)
        requires
            compression != CompressionPreference::NoPreference,
        ensures
            r.0 as u64 == spec_block_entry_word(compressed_block_size, compression),
    {
        let mut w: u32 = 0;
        w = set_field32(w, 3, 29, compressed_block_size);
        proof {
            assert(set_bits64(0, 3, 29, compressed_block_size as u64) == w as u64);
        }
        w = set_field32(w, 0, 3, compression.to_code());
        NativeTocBlockEntry(w)
    }

    /// `u29` Compressed size of the block.
    pub fn compressed_block_size(&self) -> (r: u32)
        ensures
            r as u64 == get_bits64(self.0 as u64, 3, 29),
    {
        get_field32(self.0, 3, 29)
    }

    /// `u3` The stored number of the block's compression.
    pub fn compression_raw(&self) -> (r: u32)
        ensures
            r as u64 == get_bits64(self.0 as u64, 0, 3),
    {
        get_field32(self.0, 0, 3)
    }

    /// The block's compression, when the stored number stands for one.
    pub fn try_compression(&self) -> (r: Option<CompressionPreference>)
        ensures
            r == spec_compression_from_code(get_bits64(self.0 as u64, 0, 3) as u32),
    {
        let raw = self.compression_raw();
        CompressionPreference::from_code(raw)
    }

    /// The block's compression; the stored number must stand for one.
    pub fn compression(&self) -> (r: CompressionPreference)
        requires
            spec_compression_from_code(get_bits64(self.0 as u64, 0, 3) as u32) is Some,
        ensures
            Some(r) == spec_compression_from_code(get_bits64(self.0 as u64, 0, 3) as u32),
    {
        match self.try_compression() {
            Some(c) => c,
            None => CompressionPreference::Copy,
        }
    }
}

/// Reading the fields of a packed block entry gives back the size (truncated to its
/// field) and the compression.
pub proof fn lemma_block_entry_fields(compressed_block_size: u32, compression: CompressionPreference)
    requires
        compression != CompressionPreference::NoPreference,
    ensures
        ({
            let w = spec_block_entry_word(compressed_block_size, compression);
            &&& get_bits64(w, 3, 29) == compressed_block_size as u64 % 0x2000_0000
            &&& spec_compression_from_code(get_bits64(w, 0, 3) as u32) == Some(compression)
        }),
{
    broadcast use crate::utilities::bits::group_bit_fields;
    lemma2_to64();
}

} // verus!
