use crate::headers::managed::file_entry::FileEntry;
use crate::utilities::bits::{get_bits64, get_field32, set_bits64, set_field32};
use crate::utilities::bytes::{le_bytes32, push_u32_le, read_u32_at, read_u32_le};
use vstd::prelude::*;

verus! {

/// The 32 bit word that holds the path index (low half) and block index (high half) of a
/// Preset 3 entry; as little endian bytes it is the two `u16` fields in order.
pub open spec fn spec_p3_index_word(file_path_index: u16, block_index: u16) -> u64 {
    set_bits64(set_bits64(0, 0, 16, file_path_index as u64), 16, 16, block_index as u64)
}

/// Packs the path index and block index into their 32 bit word.
pub fn p3_index_word(file_path_index: u16, block_index: u16) -> (r: u32)
    ensures
        r as u64 == spec_p3_index_word(file_path_index, block_index),
{
    let w = set_field32(0, 0, 16, file_path_index as u32);
    proof {
        assert(set_bits64(0, 0, 16, file_path_index as u64) == w as u64);
    }
    set_field32(w, 16, 16, block_index as u32)
}

/// Reading the two halves of the index word gives back the path index and block index.
pub proof fn lemma_p3_index_word_fields(file_path_index: u16, block_index: u16)
    ensures
        ({
            let w = spec_p3_index_word(file_path_index, block_index);
            &&& get_bits64(w, 0, 16) == file_path_index as u64
            &&& get_bits64(w, 16, 16) == block_index as u64
            &&& get_bits64(w, 32, 32) == 0
        }),
{
    broadcast use crate::utilities::bits::group_bit_fields;
    vstd::arithmetic::power2::lemma2_to64();
}

/// As a 32 bit value, the index word holds the path index in its low 16 bits and the
/// block index in its high 16 bits.
pub proof fn lemma_p3_index_word_halves(file_path_index: u16, block_index: u16)
    ensures
        ((spec_p3_index_word(file_path_index, block_index) as u32) & 0xffff) as u16 == file_path_index,
        ((spec_p3_index_word(file_path_index, block_index) as u32) >> 16) as u16 == block_index,
{
    lemma_p3_index_word_fields(file_path_index, block_index);
    let w = spec_p3_index_word(file_path_index, block_index);
    vstd::arithmetic::power2::lemma2_to64();
    crate::utilities::bits::lemma_mask64_is(16, 0xffff);
    assert(((w >> 0u64) & 0xffffu64) == file_path_index as u64 && ((w >> 16u64) & 0xffffu64) == block_index as u64
        ==> ((w as u32) & 0xffff) as u16 == file_path_index && ((w as u32) >> 16) as u16 == block_index) by (bit_vector);
}

/// The serialized form of a managed entry in the Preset 3 layout without hashes: the
/// size truncated to 32 bits, then the path index and block index, each truncated to 16
/// bits. The offset inside the block is not stored.
pub open spec fn spec_p3nohash_entry_bytes(e: FileEntry) -> Seq<u8> {
    le_bytes32(e.decompressed_size as u32) + le_bytes32(spec_p3_index_word(e.file_path_index as u16, e.first_block_index as u16) as u32)
}

/// The managed entry read from the Preset 3 entry (without hash) at `pos` of `d`.
pub open spec fn spec_read_p3nohash_entry(d: Seq<u8>, pos: int) -> FileEntry {
    let w = read_u32_le(d, pos + 4) as u64;
    FileEntry {
        hash: 0,
        decompressed_size: read_u32_le(d, pos) as u64,
        decompressed_block_offset: 0,
        file_path_index: get_bits64(w, 0, 16) as u32,
        first_block_index: get_bits64(w, 16, 16) as u32,
    }
}

/// The native entry that a managed entry converts to.
pub open spec fn spec_p3nohash_native(e: FileEntry) -> NativeFileEntryP3NoHash {
    NativeFileEntryP3NoHash {
        decompressed_size: e.decompressed_size as u32,
        file_path_index: e.file_path_index as u16,
        block_index: e.first_block_index as u16,
    }
}

/// The managed entry that a native entry converts to.
pub open spec fn spec_p3nohash_managed(x: NativeFileEntryP3NoHash) -> FileEntry {
    FileEntry {
        hash: 0,
        decompressed_size: x.decompressed_size as u64,
        decompressed_block_offset: 0,
        file_path_index: x.file_path_index as u32,
        first_block_index: x.block_index as u32,
    }
}

/// Converting a native entry to a managed one and back gives the same native entry.
pub proof fn lemma_p3nohash_entry_round_trip(x: NativeFileEntryP3NoHash)
    ensures
        spec_p3nohash_native(spec_p3nohash_managed(x)) == x,
{
}

/// A file entry of the v2 table of contents in the layout named 'Preset 3', without the
/// file hash (8 bytes).
#[derive(Debug, PartialEq, Eq, Clone, Copy, Structural)]
pub struct NativeFileEntryP3NoHash {
    /// `u32` Size of the file after decompression.
    pub decompressed_size: u32,
    /// `u16` Index of the file path in the string pool.
    pub file_path_index: u16,
    /// `u16` Index of the block.
    pub block_index: u16,
}

impl NativeFileEntryP3NoHash {
    /// Size of the entry in bytes.
    pub const SIZE_BYTES: usize = 8;

    /// Converts a managed entry; the size and the indices are truncated, the hash and
    /// offset are dropped.
    pub fn from_entry(entry: &FileEntry) -> (r: NativeFileEntryP3NoHash)
        ensures
            r == spec_p3nohash_native(*entry),
    {
        NativeFileEntryP3NoHash {
            decompressed_size: entry.decompressed_size as u32,
            file_path_index: entry.file_path_index as u16,
            block_index: entry.first_block_index as u16,
        }
    }

    /// Converts to a managed entry (whose hash and offset are 0).
    pub fn to_entry(&self) -> (r: FileEntry)
        ensures
            r == spec_p3nohash_managed(*self),
    {
        FileEntry {
            hash: 0,
            decompressed_size: self.decompressed_size as u64,
            decompressed_block_offset: 0,
            file_path_index: self.file_path_index as u32,
            first_block_index: self.block_index as u32,
        }
    }

    /// Appends the little endian bytes of the entry to `out`.
    pub fn to_writer(&self, out: &mut Vec<u8>)
        ensures
            final(out)@ == old(out)@ + le_bytes32(self.decompressed_size)
                + le_bytes32(spec_p3_index_word(self.file_path_index, self.block_index) as u32),
    {
        push_u32_le(out, self.decompressed_size);
        push_u32_le(out, p3_index_word(self.file_path_index, self.block_index));
    }

    /// Reads the entry whose little endian bytes start at `pos` of `data`.
    pub fn from_reader(data: &[u8], pos: usize) -> (r: NativeFileEntryP3NoHash)
        requires
            pos + 8 <= data@.len(),
        ensures
            r.decompressed_size == read_u32_le(data@, pos as int),
            r.file_path_index as u64 == get_bits64(read_u32_le(data@, pos + 4) as u64, 0, 16),
            r.block_index as u64 == get_bits64(read_u32_le(data@, pos + 4) as u64, 16, 16),
    {
        let _len = data.len();
        let w = read_u32_at(data, pos + 4);
        let path = get_field32(w, 0, 16);
        let block = get_field32(w, 16, 16);
        proof {
            vstd::arithmetic::power2::lemma2_to64();
            crate::utilities::bits::lemma_get_bits_bound64(w as u64, 0, 16);
            crate::utilities::bits::lemma_get_bits_bound64(w as u64, 16, 16);
            crate::utilities::bits::lemma_mask64_is(16, 0xffff);
        }
        NativeFileEntryP3NoHash {
            decompressed_size: read_u32_at(data, pos),
            file_path_index: path as u16,
            block_index: block as u16,
        }
    }
}

/// Appends the Preset 3 form (without hash) of a managed entry to `out`.
pub fn write_p3nohash_entry(entry: &FileEntry, out: &mut Vec<u8>)
    ensures
        final(out)@ == old(out)@ + spec_p3nohash_entry_bytes(*entry),
{
    NativeFileEntryP3NoHash::from_entry(entry).to_writer(out);
    proof {
        assert(out@ =~= old(out)@ + spec_p3nohash_entry_bytes(*entry));
    }
}

/// Reads the managed entry from the Preset 3 entry (without hash) at `pos` of `data`.
pub fn read_p3nohash_entry(data: &[u8], pos: usize) -> (r: FileEntry)
    requires
        pos + 8 <= data@.len(),
    ensures
        r == spec_read_p3nohash_entry(data@, pos as int),
{
    NativeFileEntryP3NoHash::from_reader(data, pos).to_entry()
}

} // verus!
