use vstd::prelude::*;

verus! {

/// Entry for the individual file in the table of contents.
#[derive(Debug, PartialEq, Eq, Clone, Copy, Structural)]
pub struct FileEntry {
    /// Hash of the file described in this entry.
    pub hash: u64,
    /// Size of the file after decompression.
    pub decompressed_size: u64,
    /// Offset of the file inside the decompressed block.
    pub decompressed_block_offset: u32,
    /// Index of the file path associated with this file in the string pool.
    pub file_path_index: u32,
    /// Index of the first block associated with this file.
    pub first_block_index: u32,
}

impl FileEntry {
    /// Creates the entry.
    pub fn new(
        hash: u64,
        decompressed_size: u64,
        decompressed_block_offset: u32,
        file_path_index: u32,
        first_block_index: u32,
    ) -> (r: FileEntry)
        ensures
            r == (FileEntry { hash, decompressed_size, decompressed_block_offset, file_path_index, first_block_index }),
    {
        FileEntry { hash, decompressed_size, decompressed_block_offset, file_path_index, first_block_index }
    }
}

impl Default for FileEntry {
    fn default() -> (r: FileEntry)
        ensures
            r == (FileEntry { hash: 0, decompressed_size: 0, decompressed_block_offset: 0, file_path_index: 0, first_block_index: 0 }),
    {
        FileEntry::new(0, 0, 0, 0, 0)
    }
}

} // verus!
