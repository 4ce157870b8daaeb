use crate::headers::managed::file_entry::FileEntry;
use crate::headers::raw::toc::v2::presets::preset3_fileentry_nohash::{
    p3_index_word, spec_p3_index_word,
};
use crate::headers::types::xxh3sum::XXH3sum;
use crate::utilities::bits::{get_bits64, get_field32};
use crate::utilities::bytes::{
    le_bytes32, le_bytes64, push_u32_le, push_u64_le, read_u32_at, read_u32_le, read_u64_at,
    read_u64_le,
};
use vstd::prelude::*;

verus! {

/// The serialized form of a managed entry in the Preset 3 layout with hashes: the hash,
/// the size truncated to 32 bits, then the path index and block index, each truncated to
/// 16 bits. The offset inside the block is not stored.
pub open spec fn spec_p3_entry_bytes(e: FileEntry) -> Seq<u8> {
    le_bytes64(e.hash) + le_bytes32(e.decompressed_size as u32) + le_bytes32(spec_p3_index_word(e.file_path_index as u16, e.first_block_index as u16) as u32)
}

/// The managed entry read from the Preset 3 entry (with hash) at `pos` of `d`.
pub open spec fn spec_read_p3_entry(d: Seq<u8>, pos: int) -> FileEntry {
    let w = read_u32_le(d, pos + 12) as u64;
    FileEntry {
        hash: read_u64_le(d, pos),
        decompressed_size: read_u32_le(d, pos + 8) as u64,
        decompressed_block_offset: 0,
        file_path_index: get_bits64(w, 0, 16) as u32,
        first_block_index: get_bits64(w, 16, 16) as u32,
    }
}

/// The native entry that a managed entry converts to.
pub open spec fn spec_p3_native(e: FileEntry) -> NativeFileEntryP3 {
    NativeFileEntryP3 {
        hash: XXH3sum(e.hash),
        decompressed_size: e.decompressed_size as u32,
        file_path_index: e.file_path_index as u16,
        block_index: e.first_block_index as u16,
    }
}

/// The managed entry that a native entry converts to.
pub open spec fn spec_p3_managed(x: NativeFileEntryP3) -> FileEntry {
    FileEntry {
        hash: x.hash.0,
        decompressed_size: x.decompressed_size as u64,
        decompressed_block_offset: 0,
        file_path_index: x.file_path_index as u32,
        first_block_index: x.block_index as u32,
    }
}

/// Converting a native entry to a managed one and back gives the same native entry.
pub proof fn lemma_p3_entry_round_trip(x: NativeFileEntryP3)
    ensures
        spec_p3_native(spec_p3_managed(x)) == x,
{
}

/// A file entry of the v2 table of contents in the layout named 'Preset 3', with the file
/// hash (16 bytes).
#[derive(Debug, PartialEq, Eq, Clone, Copy, Structural)]
pub struct NativeFileEntryP3 {
    /// `u64` Hash (XXH3) of the file described in this entry.
    pub hash: XXH3sum,
    /// `u32` Size of the file after decompression.
    pub decompressed_size: u32,
    /// `u16` Index of the file path in the string pool.
    pub file_path_index: u16,
    /// `u16` Index of the block.
    pub block_index: u16,
}

impl NativeFileEntryP3 {
    /// Size of the entry in bytes.
    pub const SIZE_BYTES: usize = 16;

    /// Converts a managed entry; the size and the indices are truncated, the offset is
    /// dropped.
    pub fn from_entry(entry: &FileEntry) -> (r: NativeFileEntryP3)
        ensures
            r == spec_p3_native(*entry),
    {
        NativeFileEntryP3 {
            hash: XXH3sum(entry.hash),
            decompressed_size: entry.decompressed_size as u32,
            file_path_index: entry.file_path_index as u16,
            block_index: entry.first_block_index as u16,
        }
    }

    /// Converts to a managed entry (whose offset is 0).
    pub fn to_entry(&self) -> (r: FileEntry)
        ensures
            r == spec_p3_managed(*self),
    {
        FileEntry {
            hash: self.hash.0,
            decompressed_size: self.decompressed_size as u64,
            decompressed_block_offset: 0,
            file_path_index: self.file_path_index as u32,
            first_block_index: self.block_index as u32,
        }
    }

    /// Appends the little endian bytes of the entry to `out`.
    pub fn to_writer(&self, out: &mut Vec<u8>)
        ensures
            final(out)@ == old(out)@ + le_bytes64(self.hash.0) + le_bytes32(self.decompressed_size)
                + le_bytes32(spec_p3_index_word(self.file_path_index, self.block_index) as u32),
    {
        push_u64_le(out, self.hash.0);
        push_u32_le(out, self.decompressed_size);
        push_u32_le(out, p3_index_word(self.file_path_index, self.block_index));
    }

    /// Reads the entry whose little endian bytes start at `pos` of `data`.
    pub fn from_reader(data: &[u8], pos: usize) -> (r: NativeFileEntryP3)
        requires
            pos + 16 <= data@.len(),
        ensures
            r.hash.0 == read_u64_le(data@, pos as int),
            r.decompressed_size == read_u32_le(data@, pos + 8),
            r.file_path_index as u64 == get_bits64(read_u32_le(data@, pos + 12) as u64, 0, 16),
            r.block_index as u64 == get_bits64(read_u32_le(data@, pos + 12) as u64, 16, 16),
    {
        let _len = data.len();
        let w = read_u32_at(data, pos + 12);
        let path = get_field32(w, 0, 16);
        let block = get_field32(w, 16, 16);
        proof {
            vstd::arithmetic::power2::lemma2_to64();
            crate::utilities::bits::lemma_get_bits_bound64(w as u64, 0, 16);
            crate::utilities::bits::lemma_get_bits_bound64(w as u64, 16, 16);
            crate::utilities::bits::lemma_mask64_is(16, 0xffff);
        }
        NativeFileEntryP3 {
            hash: XXH3sum(read_u64_at(data, pos)),
            decompressed_size: read_u32_at(data, pos + 8),
            file_path_index: path as u16,
            block_index: block as u16,
        }
    }
}

/// Appends the Preset 3 form (with hash) of a managed entry to `out`.
pub fn write_p3_entry(entry: &FileEntry, out: &mut Vec<u8>)
    ensures
        final(out)@ == old(out)@ + spec_p3_entry_bytes(*entry),
{
    NativeFileEntryP3::from_entry(entry).to_writer(out);
    proof {
        assert(out@ =~= old(out)@ + spec_p3_entry_bytes(*entry));
    }
}

/// Reads the managed entry from the Preset 3 entry (with hash) at `pos` of `data`.
pub fn read_p3_entry(data: &[u8], pos: usize) -> (r: FileEntry)
    requires
        pos + 16 <= data@.len(),
    ensures
        r == spec_read_p3_entry(data@, pos as int),
{
    NativeFileEntryP3::from_reader(data, pos).to_entry()
}

} // verus!
