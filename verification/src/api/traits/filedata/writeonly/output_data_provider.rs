use crate::headers::managed::file_entry::FileEntry;
use vstd::prelude::*;

verus! {

/// The part of a [`FileEntry`] needed to extract a file.
#[derive(Default, Clone, Copy, PartialEq, Eq, Hash, Debug, Structural)]
pub struct SmallFileEntry {
    /// Size of the file after decompression.
    pub decompressed_size: u64,
    /// `u26` Offset of the file inside the decompressed block.
    pub decompressed_block_offset: u32,
    /// `u18` Index of the first block associated with this file.
    pub first_block_index: u32,
}

impl SmallFileEntry {
    /// Creates the entry.
    pub fn new(decompressed_size: u64, decompressed_block_offset: u32, first_block_index: u32) -> (r: SmallFileEntry)
        ensures
            r == (SmallFileEntry { decompressed_size, decompressed_block_offset, first_block_index }),
    {
        SmallFileEntry { decompressed_size, decompressed_block_offset, first_block_index }
    }

    /// Takes the size, offset and first block index of a file entry.
    pub fn from_entry(entry: FileEntry) -> (r: SmallFileEntry)
        ensures
            r == (SmallFileEntry {
                decompressed_size: entry.decompressed_size,
                decompressed_block_offset: entry.decompressed_block_offset,
                first_block_index: entry.first_block_index,
            }),
    {
        SmallFileEntry::new(entry.decompressed_size, entry.decompressed_block_offset, entry.first_block_index)
    }
}

} // verus!
