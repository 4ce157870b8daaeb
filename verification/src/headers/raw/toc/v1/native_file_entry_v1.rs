use crate::headers::managed::file_entry::FileEntry;
use crate::headers::raw::native_file_entry::NativeFileEntry;
use crate::headers::raw::toc::v1::offset_path_index_tuple::{
    spec_offset_path_index_word, OffsetPathIndexTuple,
};
use crate::utilities::bits::{get_bits64, set_bits64};
use vstd::prelude::*;

verus! {

/// A file entry of the V1 table of contents layout (24 bytes).
#[derive(Debug, PartialEq, Eq, Clone, Copy, Structural)]
pub struct NativeFileEntryV1 {
    /// Hash of the file.
    pub hash: u64,
    /// Size of the file after decompression.
    pub decompressed_size: u64,
    /// Packed offset, path index and first block index.
    pub offset_path_index_tuple: OffsetPathIndexTuple,
}

impl NativeFileEntryV1 {
    /// Size of the entry in bytes.
    pub const SIZE_BYTES: usize = 24;

    /// The packed offset, path index and first block index.
    pub open spec fn spec_tuple(&self) -> u64 {
        self.offset_path_index_tuple.0
    }

    /// Creates an entry from its parts.
    pub fn new(hash: u64, decompressed_size: u64, tuple: u64) -> (r: NativeFileEntryV1)
        ensures
            r.hash == hash,
            r.decompressed_size == decompressed_size,
            r.spec_tuple() == tuple,
    {
        NativeFileEntryV1 { hash, decompressed_size, offset_path_index_tuple: OffsetPathIndexTuple(tuple) }
    }

    /// `u26` Offset of the file inside the decompressed block.
    pub fn decompressed_block_offset(&self) -> (r: u32)
        ensures
            r as u64 == get_bits64(self.spec_tuple(), 38, 26),
    {
        self.offset_path_index_tuple.decompressed_block_offset()
    }

    /// Sets the offset, truncated to its field.
    pub fn set_decompressed_block_offset(&mut self, value: u32)
        ensures
            final(self).spec_tuple() == set_bits64(old(self).spec_tuple(), 38, 26, value as u64),
            final(self).hash == old(self).hash,
            final(self).decompressed_size == old(self).decompressed_size,
    {
        self.offset_path_index_tuple.set_decompressed_block_offset(value);
    }

    /// `u20` Index of the file path in the string pool.
    pub fn file_path_index(&self) -> (r: u32)
        ensures
            r as u64 == get_bits64(self.spec_tuple(), 18, 20),
    {
        self.offset_path_index_tuple.file_path_index()
    }

    /// Sets the path index, truncated to its field.
    pub fn set_file_path_index(&mut self, value: u32)
        ensures
            final(self).spec_tuple() == set_bits64(old(self).spec_tuple(), 18, 20, value as u64),
            final(self).hash == old(self).hash,
            final(self).decompressed_size == old(self).decompressed_size,
    {
        self.offset_path_index_tuple.set_file_path_index(value);
    }

    /// `u18` Index of the first block of the file.
    pub fn first_block_index(&self) -> (r: u32)
        ensures
            r as u64 == get_bits64(self.spec_tuple(), 0, 18),
    {
        self.offset_path_index_tuple.first_block_index()
    }

    /// Sets the first block index, truncated to its field.
    pub fn set_first_block_index(&mut self, value: u32)
        ensures
            final(self).spec_tuple() == set_bits64(old(self).spec_tuple(), 0, 18, value as u64),
            final(self).hash == old(self).hash,
            final(self).decompressed_size == old(self).decompressed_size,
    {
        self.offset_path_index_tuple.set_first_block_index(value);
    }
}

/// The V1 entry that a managed entry converts to.
pub open spec fn spec_v1_native(e: FileEntry) -> NativeFileEntryV1 {
    NativeFileEntryV1 {
        hash: e.hash,
        decompressed_size: e.decompressed_size,
        offset_path_index_tuple: OffsetPathIndexTuple(spec_offset_path_index_word(e.decompressed_block_offset, e.file_path_index, e.first_block_index)),
    }
}

/// The managed entry that a V1 entry converts to.
pub open spec fn spec_v1_managed(x: NativeFileEntryV1) -> FileEntry {
    let t = x.offset_path_index_tuple.0;
    FileEntry {
        hash: x.hash,
        decompressed_size: x.decompressed_size,
        decompressed_block_offset: get_bits64(t, 38, 26) as u32,
        file_path_index: get_bits64(t, 18, 20) as u32,
        first_block_index: get_bits64(t, 0, 18) as u32,
    }
}

/// Copying a V1 entry to a managed entry and back gives the same V1 entry.
pub proof fn lemma_native_entry_v1_round_trip(x: NativeFileEntryV1)
    ensures
        spec_v1_native(spec_v1_managed(x)) == x,
{
    crate::headers::raw::toc::v1::offset_path_index_tuple::lemma_offset_path_index_repack(x.offset_path_index_tuple.0);
}

impl NativeFileEntry for NativeFileEntryV1 {
    fn copy_from(&mut self, entry: &FileEntry)
        ensures
            *final(self) == spec_v1_native(*entry),
    {
        self.hash = entry.hash;
        self.decompressed_size = entry.decompressed_size;
        self.offset_path_index_tuple = OffsetPathIndexTuple::new(
            entry.decompressed_block_offset,
            entry.file_path_index,
            entry.first_block_index,
        );
    }

    fn copy_to(&self, entry: &mut FileEntry)
        ensures
            *final(entry) == spec_v1_managed(*self),
    {
        entry.hash = self.hash;
        entry.decompressed_size = self.decompressed_size;
        entry.decompressed_block_offset = self.offset_path_index_tuple.decompressed_block_offset();
        entry.file_path_index = self.offset_path_index_tuple.file_path_index();
        entry.first_block_index = self.offset_path_index_tuple.first_block_index();
    }
}

} // verus!
