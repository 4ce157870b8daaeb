use crate::utilities::bits::{get_bits64, get_field64, lemma_mask64_is, set_bits64, set_field64};
use vstd::arithmetic::power2::lemma2_to64;
use vstd::prelude::*;

verus! {

/// The packed word that [`OffsetPathIndexTuple::new`] produces.
pub open spec fn spec_offset_path_index_word(decompressed_block_offset: u32, file_path_index: u32, first_block_index: u32) -> u64 {
    set_bits64(set_bits64(set_bits64(0, 38, 26, decompressed_block_offset as u64), 18, 20, file_path_index as u64), 0, 18, first_block_index as u64)
}

/// The offset, path index and first block index of a V0/V1 file entry, packed in 64 bits.
///
/// | Bits    | Field                              |
/// |---------|------------------------------------|
/// | 63 - 38 | `decompressed_block_offset` (u26)  |
/// | 37 - 18 | `file_path_index` (u20)            |
/// | 17 - 0  | `first_block_index` (u18)          |
#[derive(Debug, PartialEq, Eq, Clone, Copy, Structural)]
pub struct OffsetPathIndexTuple(pub u64);

impl OffsetPathIndexTuple {
    /// Packs the three values, each truncated to its field.
    pub fn new(decompressed_block_offset: u32, file_path_index: u32, first_block_index: u32) -> (r: OffsetPathIndexTuple)
        ensures
            r.0 == spec_offset_path_index_word(decompressed_block_offset, file_path_index, first_block_index),
    {
        let mut w: u64 = 0;
        w = set_field64(w, 38, 26, decompressed_block_offset as u64);
        w = set_field64(w, 18, 20, file_path_index as u64);
        w = set_field64(w, 0, 18, first_block_index as u64);
        OffsetPathIndexTuple(w)
    }

    /// The raw packed word.
    pub fn into_raw(&self) -> (r: u64)
        ensures
            r == self.0,
    {
        self.0
    }

    /// `u26` Offset of the file inside the decompressed block.
    pub fn decompressed_block_offset(&self) -> (r: u32)
        ensures
            r as u64 == get_bits64(self.0, 38, 26),
    {
        let r = get_field64(self.0, 38, 26);
        proof {
            lemma2_to64();
            lemma_mask64_is(26, 0x3ff_ffff);
        }
        r as u32
    }

    /// `u20` Index of the file path in the string pool.
    pub fn file_path_index(&self) -> (r: u32)
        ensures
            r as u64 == get_bits64(self.0, 18, 20),
    {
        let r = get_field64(self.0, 18, 20);
        proof {
            lemma2_to64();
            lemma_mask64_is(20, 0xf_ffff);
        }
        r as u32
    }

    /// `u18` Index of the first block of the file.
    pub fn first_block_index(&self) -> (r: u32)
        ensures
            r as u64 == get_bits64(self.0, 0, 18),
    {
        let r = get_field64(self.0, 0, 18);
        proof {
            lemma2_to64();
            lemma_mask64_is(18, 0x3_ffff);
        }
        r as u32
    }

    /// Sets the offset, truncated to its field.
    pub fn set_decompressed_block_offset(&mut self, value: u32)
        ensures
            final(self).0 == set_bits64(old(self).0, 38, 26, value as u64),
    {
        self.0 = set_field64(self.0, 38, 26, value as u64);
    }

    /// Sets the path index, truncated to its field.
    pub fn set_file_path_index(&mut self, value: u32)
        ensures
            final(self).0 == set_bits64(old(self).0, 18, 20, value as u64),
    {
        self.0 = set_field64(self.0, 18, 20, value as u64);
    }

    /// Sets the first block index, truncated to its field.
    pub fn set_first_block_index(&mut self, value: u32)
        ensures
            final(self).0 == set_bits64(old(self).0, 0, 18, value as u64),
    {
        self.0 = set_field64(self.0, 0, 18, value as u64);
    }
}

/// Reading the fields of a packed tuple gives back the values it was packed with, each
/// truncated to the width of its field.
pub proof fn lemma_offset_path_index_fields(decompressed_block_offset: u32, file_path_index: u32, first_block_index: u32)
    ensures
        ({
            let w = spec_offset_path_index_word(decompressed_block_offset, file_path_index, first_block_index);
            &&& get_bits64(w, 38, 26) == decompressed_block_offset as u64 % 0x400_0000
            &&& get_bits64(w, 18, 20) == file_path_index as u64 % 0x10_0000
            &&& get_bits64(w, 0, 18) == first_block_index as u64 % 0x4_0000
        }),
{
    broadcast use crate::utilities::bits::group_bit_fields;
    lemma2_to64();
}

/// Packing the fields read from a word gives back the word.
pub proof fn lemma_offset_path_index_repack(t: u64)
    ensures
        spec_offset_path_index_word(get_bits64(t, 38, 26) as u32, get_bits64(t, 18, 20) as u32, get_bits64(t, 0, 18) as u32) == t,
{
    assert(set_bits64(set_bits64(set_bits64(0, 38, 26, ((get_bits64(t, 38, 26) as u32) as u64)), 18, 20, ((get_bits64(t, 18, 20) as u32) as u64)), 0, 18, ((get_bits64(t, 0, 18) as u32) as u64)) == t) by (bit_vector);
}

} // verus!
