use crate::api::enums::compression_preference::{
    spec_compression_code, spec_compression_from_code, CompressionPreference,
};
use crate::utilities::bits::{get_bits64, get_field32, set_bits64, set_field32};
use crate::utilities::bytes::{push_u32_le, read_u32_at, read_u32_le, le_bytes32};
use vstd::arithmetic::power2::lemma2_to64;
use vstd::prelude::*;

verus! {

/// The packed word of a block entry of the v2 table of contents.
pub open spec fn spec_v2_block_entry_word(compressed_block_size: u32, compression: CompressionPreference) -> u64 {
    set_bits64(set_bits64(0, 2, 30, compressed_block_size as u64), 0, 2, spec_compression_code(compression) as u64)
}

/// Native 'block entry' in the v2 table of contents.
///
/// | Bits    | Field                            |
/// |---------|----------------------------------|
/// | 31 - 2  | `compressed_block_size` (u30)    |
/// | 1 - 0   | `compression` (u2)               |
#[derive(Debug, PartialEq, Eq, Clone, Copy, Structural)]
pub struct NativeV2TocBlockEntry(pub u32);

impl NativeV2TocBlockEntry {
    /// Packs a block entry; the size is truncated to its 30 bits. Every block has a
    /// compression of its own: `NoPreference` is not stored.
    pub fn new(compressed_block_size: u32, compression: CompressionPreference) -> (r: NativeV2TocBlockEntry)
        requires
            compression != CompressionPreference::NoPreference,
        ensures
            r.0 as u64 == spec_v2_block_entry_word(compressed_block_size, compression),
    {
        let mut w: u32 = 0;
        w = set_field32(w, 2, 30, compressed_block_size);
        proof {
            assert(set_bits64(0, 2, 30, compressed_block_size as u64) == w as u64);
        }
        w = set_field32(w, 0, 2, compression.to_code());
        NativeV2TocBlockEntry(w)
    }

    /// Appends the little endian bytes of a new entry to `out`.
    pub fn to_writer(compressed_block_size: u32, compression: CompressionPreference, out: &mut Vec<u8>)
        requires
            compression != CompressionPreference::NoPreference,
        ensures
            final(out)@ == old(out)@ + le_bytes32(spec_v2_block_entry_word(compressed_block_size, compression) as u32),
    {
        let entry = NativeV2TocBlockEntry::new(compressed_block_size, compression);
        push_u32_le(out, entry.0);
    }

    /// Reads the little endian entry at `pos` of `data`.
    pub fn from_reader(data: &[u8], pos: usize) -> (r: NativeV2TocBlockEntry)
        requires
            pos + 4 <= data@.len(),
        ensures
            r.0 == read_u32_le(data@, pos as int),
    {
        NativeV2TocBlockEntry(read_u32_at(data, pos))
    }

    /// `u30` Compressed size of the block.
    pub fn compressed_block_size(&self) -> (r: u32)
        ensures
            r as u64 == get_bits64(self.0 as u64, 2, 30),
    {
        get_field32(self.0, 2, 30)
    }

    /// `u2` The stored number of the block's compression.
    pub fn compression_raw(&self) -> (r: u32)
        ensures
            r as u64 == get_bits64(self.0 as u64, 0, 2),
    {
        get_field32(self.0, 0, 2)
    }

    /// The block's compression, when the stored number stands for one (3 stands for none).
    pub fn try_compression(&self) -> (r: Option<CompressionPreference>)
        ensures
            r == spec_compression_from_code(get_bits64(self.0 as u64, 0, 2) as u32),
    {
        let raw = self.compression_raw();
        CompressionPreference::from_code(raw)
    }

    /// The block's compression; the stored number must stand for one.
    pub fn compression(&self) -> (r: CompressionPreference)
        requires
            spec_compression_from_code(get_bits64(self.0 as u64, 0, 2) as u32) is Some,
        ensures
            Some(r) == spec_compression_from_code(get_bits64(self.0 as u64, 0, 2) as u32),
    {
        match self.try_compression() {
            Some(c) => c,
            None => CompressionPreference::Copy,
        }
    }

    /// Sets the block's compression.
    pub fn set_compression(&mut self, pref: CompressionPreference)
        requires
            pref != CompressionPreference::NoPreference,
        ensures
            final(self).0 as u64 == set_bits64(old(self).0 as u64, 0, 2, spec_compression_code(pref) as u64),
    {
        self.0 = set_field32(self.0, 0, 2, pref.to_code());
    }
}

/// Reading the fields of a packed v2 block entry gives back the size (truncated to its
/// field) and the compression.
pub proof fn lemma_v2_block_entry_fields(compressed_block_size: u32, compression: CompressionPreference)
    requires
        compression != CompressionPreference::NoPreference,
    ensures
        ({
            let w = spec_v2_block_entry_word(compressed_block_size, compression);
            &&& get_bits64(w, 2, 30) == compressed_block_size as u64 % 0x4000_0000
            &&& spec_compression_from_code(get_bits64(w, 0, 2) as u32) == Some(compression)
            &&& get_bits64(w, 32, 32) == 0
        }),
{
    broadcast use crate::utilities::bits::group_bit_fields;
    lemma2_to64();
}

} // verus!
