use crate::headers::raw::toc::v2::fef64::toc_header::Fef64TocHeader;
use crate::utilities::bits::get_bits64;
use vstd::prelude::*;

verus! {

/// The bit counts of the fields of a Flexible Entry Format file entry; the decompressed
/// size takes the bits left over.
#[derive(Clone, Copy, PartialEq, Eq, Hash, Debug, Structural)]
pub struct ItemCounts {
    /// Bits of the first block index.
    pub block_count_bits: u8,
    /// Bits of the file path index.
    pub file_count_bits: u8,
    /// Bits of the offset inside the decompressed block.
    pub decompressed_block_offset_bits: u8,
}

/// The name the entry layouts use for [`ItemCounts`].
pub type FileEntryFieldsBits = ItemCounts;

impl ItemCounts {
    /// The bits of every field but the decompressed size.
    pub open spec fn spec_used_bits(&self) -> nat {
        (self.decompressed_block_offset_bits + self.file_count_bits + self.block_count_bits) as nat
    }

    /// Creates the bit counts.
    pub fn new(block_count_bits: u8, file_count_bits: u8, decompressed_block_offset_bits: u8) -> (r: ItemCounts)
        ensures
            r == (ItemCounts { block_count_bits, file_count_bits, decompressed_block_offset_bits }),
    {
        ItemCounts { block_count_bits, file_count_bits, decompressed_block_offset_bits }
    }

    /// The bits of the decompressed size: what the other fields leave of 64.
    pub fn decompressed_size_bits(&self) -> (r: u32)
        requires
            self.spec_used_bits() <= 64,
        ensures
            r == 64 - self.spec_used_bits(),
    {
        64 - (self.decompressed_block_offset_bits as u32 + self.file_count_bits as u32 + self.block_count_bits as u32)
    }

    /// The bits of every field but the decompressed size.
    pub fn used_bits(&self) -> (r: u32)
        ensures
            r == self.spec_used_bits(),
    {
        self.decompressed_block_offset_bits as u32 + self.file_count_bits as u32 + self.block_count_bits as u32
    }

    /// The bit counts that a table of contents header declares.
    pub fn from_header(header: Fef64TocHeader) -> (r: ItemCounts)
        ensures
            r.block_count_bits as u64 == get_bits64(header.0, 47, 5),
            r.file_count_bits as u64 == get_bits64(header.0, 52, 5),
            r.decompressed_block_offset_bits as u64 == get_bits64(header.0, 42, 5),
    {
        ItemCounts::new(
            header.get_block_count_bits(),
            header.get_file_count_bits(),
            header.get_decompressed_block_offset_bits(),
        )
    }
}

} // verus!
