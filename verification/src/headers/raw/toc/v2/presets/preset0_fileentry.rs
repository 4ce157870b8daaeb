use crate::headers::managed::file_entry::FileEntry;
use crate::headers::raw::native_file_entry::NativeFileEntry;
use crate::headers::raw::toc::v2::presets::offset_index_path_tuple_p0_p1_p2::{
    lemma_common_tuple_repack, spec_common_tuple_word, CommonOffsetPathIndexTuple,
};
use crate::headers::types::xxh3sum::XXH3sum;
use crate::utilities::bits::{get_bits64, set_bits64};
use crate::utilities::bytes::{
    le_bytes32, le_bytes64, push_u32_le, push_u64_le, read_u32_at, read_u32_le, read_u64_at,
    read_u64_le,
};
use vstd::prelude::*;

verus! {

/// The serialized form of a managed entry in the Preset 0 layout: the hash, the size
/// truncated to 32 bits and the packed offset, path index and first block index.
pub open spec fn spec_p0_entry_bytes(e: FileEntry) -> Seq<u8> {
    le_bytes64(e.hash) + le_bytes32(e.decompressed_size as u32)
        + le_bytes64(spec_common_tuple_word(e.decompressed_block_offset, e.file_path_index, e.first_block_index))
}

/// The managed entry read from the Preset 0 entry whose bytes start at `pos` of `d`.
pub open spec fn spec_read_p0_entry(d: Seq<u8>, pos: int) -> FileEntry {
    let t = read_u64_le(d, pos + 12);
    FileEntry {
        hash: read_u64_le(d, pos),
        decompressed_size: read_u32_le(d, pos + 8) as u64,
        decompressed_block_offset: get_bits64(t, 40, 24) as u32,
        file_path_index: get_bits64(t, 22, 18) as u32,
        first_block_index: get_bits64(t, 0, 22) as u32,
    }
}

/// The native entry that a managed entry converts to.
pub open spec fn spec_p0_native(e: FileEntry) -> NativeFileEntryP0 {
    NativeFileEntryP0 {
        hash: XXH3sum(e.hash),
        decompressed_size: e.decompressed_size as u32,
        offset_path_index_tuple: CommonOffsetPathIndexTuple(spec_common_tuple_word(e.decompressed_block_offset, e.file_path_index, e.first_block_index)),
    }
}

/// The managed entry that a native entry converts to.
pub open spec fn spec_p0_managed(x: NativeFileEntryP0) -> FileEntry {
    let t = x.offset_path_index_tuple.0;
    FileEntry {
        hash: x.hash.0,
        decompressed_size: x.decompressed_size as u64,
        decompressed_block_offset: get_bits64(t, 40, 24) as u32,
        file_path_index: get_bits64(t, 22, 18) as u32,
        first_block_index: get_bits64(t, 0, 22) as u32,
    }
}

/// Converting a native entry to a managed one and back gives the same native entry.
pub proof fn lemma_p0_entry_round_trip(x: NativeFileEntryP0)
    ensures
        spec_p0_native(spec_p0_managed(x)) == x,
{
    lemma_common_tuple_repack(x.offset_path_index_tuple.0);
}

/// A file entry of the v2 table of contents in the layout named 'Preset 0' (20 bytes).
#[derive(Debug, PartialEq, Eq, Clone, Copy, Structural)]
pub struct NativeFileEntryP0 {
    /// `u64` Hash (XXH3) of the file described in this entry.
    pub hash: XXH3sum,
    /// `u32` Size of the file after decompression.
    pub decompressed_size: u32,
    /// Packed offset, path index and first block index.
    pub offset_path_index_tuple: CommonOffsetPathIndexTuple,
}

impl NativeFileEntryP0 {
    /// Size of the entry in bytes.
    pub const SIZE_BYTES: usize = 20;

    /// `u24` Offset of the file inside the decompressed block.
    pub fn decompressed_block_offset(&self) -> (r: u32)
        ensures
            r as u64 == get_bits64(self.offset_path_index_tuple.0, 40, 24),
    {
        self.offset_path_index_tuple.decompressed_block_offset()
    }

    /// Sets the offset, truncated to its field.
    pub fn set_decompressed_block_offset(&mut self, value: u32)
        ensures
            final(self).offset_path_index_tuple.0 == set_bits64(old(self).offset_path_index_tuple.0, 40, 24, value as u64),
            final(self).hash == old(self).hash,
            final(self).decompressed_size == old(self).decompressed_size,
    {
        self.offset_path_index_tuple.set_decompressed_block_offset(value);
    }

    /// `u18` Index of the file path in the string pool.
    pub fn file_path_index(&self) -> (r: u32)
        ensures
            r as u64 == get_bits64(self.offset_path_index_tuple.0, 22, 18),
    {
        self.offset_path_index_tuple.file_path_index()
    }

    /// Sets the path index, truncated to its field.
    pub fn set_file_path_index(&mut self, value: u32)
        ensures
            final(self).offset_path_index_tuple.0 == set_bits64(old(self).offset_path_index_tuple.0, 22, 18, value as u64),
            final(self).hash == old(self).hash,
            final(self).decompressed_size == old(self).decompressed_size,
    {
        self.offset_path_index_tuple.set_file_path_index(value);
    }

    /// `u22` Index of the first block of the file.
    pub fn first_block_index(&self) -> (r: u32)
        ensures
            r as u64 == get_bits64(self.offset_path_index_tuple.0, 0, 22),
    {
        self.offset_path_index_tuple.first_block_index()
    }

    /// Sets the first block index, truncated to its field.
    pub fn set_first_block_index(&mut self, value: u32)
        ensures
            final(self).offset_path_index_tuple.0 == set_bits64(old(self).offset_path_index_tuple.0, 0, 22, value as u64),
            final(self).hash == old(self).hash,
            final(self).decompressed_size == old(self).decompressed_size,
    {
        self.offset_path_index_tuple.set_first_block_index(value);
    }

    /// Converts a managed entry; the size and the packed fields are truncated.
    pub fn from_entry(entry: &FileEntry) -> (r: NativeFileEntryP0)
        ensures
            r == spec_p0_native(*entry),
    {
        NativeFileEntryP0 {
            hash: XXH3sum(entry.hash),
            decompressed_size: entry.decompressed_size as u32,
            offset_path_index_tuple: CommonOffsetPathIndexTuple::new(
                entry.decompressed_block_offset,
                entry.file_path_index,
                entry.first_block_index,
            ),
        }
    }

    /// Converts to a managed entry.
    pub fn to_entry(&self) -> (r: FileEntry)
        ensures
            r == spec_p0_managed(*self),
    {
        FileEntry {
            hash: self.hash.0,
            decompressed_size: self.decompressed_size as u64,
            decompressed_block_offset: self.decompressed_block_offset(),
            file_path_index: self.file_path_index(),
            first_block_index: self.first_block_index(),
        }
    }

    /// Appends the little endian bytes of the entry to `out`.
    pub fn to_writer(&self, out: &mut Vec<u8>)
        ensures
            final(out)@ == old(out)@ + le_bytes64(self.hash.0) + le_bytes32(self.decompressed_size)
                + le_bytes64(self.offset_path_index_tuple.0),
    {
        push_u64_le(out, self.hash.0);
        push_u32_le(out, self.decompressed_size);
        push_u64_le(out, self.offset_path_index_tuple.0);
    }

    /// Reads the entry whose little endian bytes start at `pos` of `data`.
    pub fn from_reader(data: &[u8], pos: usize) -> (r: NativeFileEntryP0)
        requires
            pos + 20 <= data@.len(),
        ensures
            r.hash.0 == read_u64_le(data@, pos as int),
            r.decompressed_size == read_u32_le(data@, pos + 8),
            r.offset_path_index_tuple.0 == read_u64_le(data@, pos + 12),
    {
        let _len = data.len();
        NativeFileEntryP0 {
            hash: XXH3sum(read_u64_at(data, pos)),
            decompressed_size: read_u32_at(data, pos + 8),
            offset_path_index_tuple: CommonOffsetPathIndexTuple(read_u64_at(data, pos + 12)),
        }
    }
}

impl NativeFileEntry for NativeFileEntryP0 {
    fn copy_from(&mut self, entry: &FileEntry)
        ensures
            *final(self) == spec_p0_native(*entry),
    {
        *self = NativeFileEntryP0::from_entry(entry);
    }

    fn copy_to(&self, entry: &mut FileEntry)
        ensures
            *final(entry) == spec_p0_managed(*self),
    {
        *entry = self.to_entry();
    }
}

/// Appends the Preset 0 form of a managed entry to `out`.
pub fn write_p0_entry(entry: &FileEntry, out: &mut Vec<u8>)
    ensures
        final(out)@ == old(out)@ + spec_p0_entry_bytes(*entry),
{
    NativeFileEntryP0::from_entry(entry).to_writer(out);
    proof {
        assert(out@ =~= old(out)@ + spec_p0_entry_bytes(*entry));
    }
}

/// Reads the managed entry from the Preset 0 entry at `pos` of `data`.
pub fn read_p0_entry(data: &[u8], pos: usize) -> (r: FileEntry)
    requires
        pos + 20 <= data@.len(),
    ensures
        r == spec_read_p0_entry(data@, pos as int),
{
    NativeFileEntryP0::from_reader(data, pos).to_entry()
}

} // verus!
