use crate::utilities::bits::{get_bits64, get_field64, lemma_mask64_is, set_bits64, set_field64};
use vstd::arithmetic::power2::lemma2_to64;
use vstd::prelude::*;

verus! {

/// The packed word that [`CommonOffsetPathIndexTuple::new`] produces.
pub open spec fn spec_common_tuple_word(decompressed_block_offset: u32, file_path_index: u32, first_block_index: u32) -> u64 {
    set_bits64(set_bits64(set_bits64(0, 40, 24, decompressed_block_offset as u64), 22, 18, file_path_index as u64), 0, 22, first_block_index as u64)
}

/// The offset, path index and first block index of a Preset 0, 1 or 2 file entry,
/// packed in 64 bits.
///
/// | Bits    | Field                              |
/// |---------|------------------------------------|
/// | 63 - 40 | `decompressed_block_offset` (u24)  |
/// | 39 - 22 | `file_path_index` (u18)            |
/// | 21 - 0  | `first_block_index` (u22)          |
#[derive(Debug, PartialEq, Eq, Clone, Copy, Structural)]
pub struct CommonOffsetPathIndexTuple(pub u64);

impl CommonOffsetPathIndexTuple {
    /// Packs the three values, each truncated to its field.
    pub fn new(decompressed_block_offset: u32, file_path_index: u32, first_block_index: u32) -> (r: CommonOffsetPathIndexTuple)
        ensures
            r.0 == spec_common_tuple_word(decompressed_block_offset, file_path_index, first_block_index),
    {
        let mut w: u64 = 0;
        w = set_field64(w, 40, 24, decompressed_block_offset as u64);
        w = set_field64(w, 22, 18, file_path_index as u64);
        w = set_field64(w, 0, 22, first_block_index as u64);
        CommonOffsetPathIndexTuple(w)
    }

    /// The raw packed word.
    pub fn into_raw(&self) -> (r: u64)
        ensures
            r == self.0,
    {
        self.0
    }

    /// `u24` Offset of the file inside the decompressed block.
    pub fn decompressed_block_offset(&self) -> (r: u32)
        ensures
            r as u64 == get_bits64(self.0, 40, 24),
    {
        let r = get_field64(self.0, 40, 24);
        proof {
            lemma2_to64();
            lemma_mask64_is(24, 0xff_ffff);
        }
        r as u32
    }

    /// `u18` Index of the file path in the string pool.
    pub fn file_path_index(&self) -> (r: u32)
        ensures
            r as u64 == get_bits64(self.0, 22, 18),
    {
        let r = get_field64(self.0, 22, 18);
        proof {
            lemma2_to64();
            lemma_mask64_is(18, 0x3_ffff);
        }
        r as u32
    }

    /// `u22` Index of the first block of the file.
    pub fn first_block_index(&self) -> (r: u32)
        ensures
            r as u64 == get_bits64(self.0, 0, 22),
    {
        let r = get_field64(self.0, 0, 22);
        proof {
            lemma2_to64();
            lemma_mask64_is(22, 0x3f_ffff);
        }
        r as u32
    }

    /// Sets the offset, truncated to its field.
    pub fn set_decompressed_block_offset(&mut self, value: u32)
        ensures
            final(self).0 == set_bits64(old(self).0, 40, 24, value as u64),
    {
        self.0 = set_field64(self.0, 40, 24, value as u64);
    }

    /// Sets the path index, truncated to its field.
    pub fn set_file_path_index(&mut self, value: u32)
        ensures
            final(self).0 == set_bits64(old(self).0, 22, 18, value as u64),
    {
        self.0 = set_field64(self.0, 22, 18, value as u64);
    }

    /// Sets the first block index, truncated to its field.
    pub fn set_first_block_index(&mut self, value: u32)
        ensures
            final(self).0 == set_bits64(old(self).0, 0, 22, value as u64),
    {
        self.0 = set_field64(self.0, 0, 22, value as u64);
    }
}

/// Reading the fields of a packed tuple gives back the values it was packed with, each
/// truncated to the width of its field.
pub proof fn lemma_common_tuple_fields(decompressed_block_offset: u32, file_path_index: u32, first_block_index: u32)
    ensures
        ({
            let w = spec_common_tuple_word(decompressed_block_offset, file_path_index, first_block_index);
            &&& get_bits64(w, 40, 24) == decompressed_block_offset as u64 % 0x100_0000
            &&& get_bits64(w, 22, 18) == file_path_index as u64 % 0x4_0000
            &&& get_bits64(w, 0, 22) == first_block_index as u64 % 0x40_0000
        }),
{
    broadcast use crate::utilities::bits::group_bit_fields;
    lemma2_to64();
}

/// Packing the fields read from a word gives back the word.
pub proof fn lemma_common_tuple_repack(t: u64)
    ensures
        spec_common_tuple_word(get_bits64(t, 40, 24) as u32, get_bits64(t, 22, 18) as u32, get_bits64(t, 0, 22) as u32) == t,
{
    assert(set_bits64(set_bits64(set_bits64(0, 40, 24, ((get_bits64(t, 40, 24) as u32) as u64)), 22, 18, ((get_bits64(t, 22, 18) as u32) as u64)), 0, 22, ((get_bits64(t, 0, 22) as u32) as u64)) == t) by (bit_vector);
}

} // verus!
