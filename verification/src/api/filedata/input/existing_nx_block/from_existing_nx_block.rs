use crate::api::traits::filedata::file_data::FileData;
use crate::headers::managed::file_entry::FileEntry;
use std::sync::Arc;
use vstd::prelude::*;

verus! {

/// Provides a file inside a decompressed SOLID block of an existing archive, for
/// repacking only some files of that block. Providers of the files of one block share it.
pub struct FromExistingNxBlock {
    block: Arc<Vec<u8>>,
    block_offset: u32,
    file_size: u32,
}

impl FromExistingNxBlock {
    /// The decompressed bytes of the block.
    pub closed spec fn spec_block(&self) -> Seq<u8> {
        self.block@
    }

    /// Offset of the file inside the block.
    pub closed spec fn spec_block_offset(&self) -> u32 {
        self.block_offset
    }

    /// Size of the file.
    pub closed spec fn spec_file_size(&self) -> u32 {
        self.file_size
    }

    /// Creates a provider for the file of `entry` inside the decompressed `block`; the
    /// size is kept in 32 bits, as files inside a SOLID block are smaller than a block.
    pub fn new(block: Arc<Vec<u8>>, entry: &FileEntry) -> (r: FromExistingNxBlock)
        ensures
            r.spec_block() == block@,
            r.spec_block_offset() == entry.decompressed_block_offset,
            r.spec_file_size() == entry.decompressed_size as u32,
    {
        FromExistingNxBlock {
            block,
            block_offset: entry.decompressed_block_offset,
            file_size: entry.decompressed_size as u32,
        }
    }

    /// Offset of the file inside the block.
    pub fn block_offset(&self) -> (r: u32)
        ensures
            r == self.spec_block_offset(),
    {
        self.block_offset
    }

    /// Size of the file.
    pub fn file_size(&self) -> (r: u32)
        ensures
            r == self.spec_file_size(),
    {
        self.file_size
    }

    /// The bytes of the whole file: `start` must be 0 and `length` the file's size, and
    /// the file must lie inside the block.
    pub fn get_file_data<'a>(&'a self, start: u64, length: u64) -> (r: DecompressedNxBlockFileData<'a>)
        requires
            start == 0,
            length == self.spec_file_size(),
            self.spec_block_offset() + self.spec_file_size() <= self.spec_block().len(),
        ensures
            r.spec_bytes() == self.spec_block().subrange(
                self.spec_block_offset() as int,
                self.spec_block_offset() + self.spec_file_size(),
            ),
    {
        let data: &Vec<u8> = &*self.block;
        let _len = data.len();
        let start = self.block_offset as usize;
        let end = start + self.file_size as usize;
        DecompressedNxBlockFileData::new(vstd::slice::slice_subrange(data.as_slice(), start, end))
    }
}

/// The bytes of a file inside a decompressed block.
pub struct DecompressedNxBlockFileData<'a> {
    data: &'a [u8],
}

impl<'a> DecompressedNxBlockFileData<'a> {
    /// The bytes of the file.
    pub closed spec fn spec_bytes(&self) -> Seq<u8> {
        self.data@
    }

    /// Creates the file data over the given bytes.
    pub fn new(data: &'a [u8]) -> (r: DecompressedNxBlockFileData<'a>)
        ensures
            r.spec_bytes() == data@,
    {
        DecompressedNxBlockFileData { data }
    }
}

impl<'a> FileData for DecompressedNxBlockFileData<'a> {
    open spec fn spec_data(&self) -> Seq<u8> {
        self.spec_bytes()
    }

    fn data(&self) -> (r: &[u8]) {
        self.data
    }
}

} // verus!
