use crate::headers::managed::file_entry::FileEntry;
use crate::headers::raw::toc::v2::fef64::fileentrycommon::{FileEntryFieldsBits, ItemCounts};
use crate::utilities::bits::{
    field_get64, field_set64, fits_bits64, get_var_field64, lemma_field_get_set_other64,
    lemma_field_get_set_same64, set_var_field64,
};
use crate::utilities::bytes::{le_bytes64, push_u64_le, read_u64_at, read_u64_le};
use vstd::prelude::*;

verus! {

/// The bit counts leave at least one bit for the decompressed size.
pub open spec fn counts_valid(c: ItemCounts) -> bool {
    c.spec_used_bits() < 64
}

/// Bit position of the file path index.
pub open spec fn path_lo(c: ItemCounts) -> u64 {
    c.block_count_bits as u64
}

/// Bit position of the offset inside the block.
pub open spec fn offset_lo(c: ItemCounts) -> u64 {
    (c.block_count_bits + c.file_count_bits) as u64
}

/// Bit position (and width of the rest) of the decompressed size.
pub open spec fn size_lo(c: ItemCounts) -> u64 {
    c.spec_used_bits() as u64
}

/// Width of the decompressed size.
pub open spec fn size_bits(c: ItemCounts) -> u64 {
    (64 - c.spec_used_bits()) as u64
}

/// The packed word of a Flexible Entry Format entry: from the lowest bits up, the first
/// block index, the file path index, the offset inside the block, and the decompressed
/// size in the bits left over; each value truncated to its field.
pub open spec fn spec_entry8_word(c: ItemCounts, decompressed_size: u64, decompressed_block_offset: u64, file_path_index: u64, first_block_index: u64) -> u64 {
    field_set64(
        field_set64(
            field_set64(
                field_set64(0, 0, c.block_count_bits as u64, first_block_index),
                path_lo(c), c.file_count_bits as u64, file_path_index,
            ),
            offset_lo(c), c.decompressed_block_offset_bits as u64, decompressed_block_offset,
        ),
        size_lo(c), size_bits(c), decompressed_size,
    )
}

/// Every value fits in its field.
pub open spec fn values_fit(c: ItemCounts, decompressed_size: u64, decompressed_block_offset: u64, file_path_index: u64, first_block_index: u64) -> bool {
    &&& fits_bits64(decompressed_size, size_bits(c))
    &&& fits_bits64(decompressed_block_offset, c.decompressed_block_offset_bits as u64)
    &&& fits_bits64(file_path_index, c.file_count_bits as u64)
    &&& fits_bits64(first_block_index, c.block_count_bits as u64)
}

/// A file entry in the Flexible Entry Format without hash: 64 bits whose layout the bit
/// counts of the table's header give.
#[derive(Clone, Copy, PartialEq, Eq, Hash, Debug, Structural)]
pub struct FileEntry8 {
    /// The packed word.
    pub data: u64,
}

impl FileEntry8 {
    /// Size of the entry in bytes.
    pub const SIZE_BYTES: usize = 8;

    /// Packs the fields; each value must fit in its field.
    pub fn new(
        item_counts: FileEntryFieldsBits,
        decompressed_size: u64,
        decompressed_block_offset: u64,
        file_path_index: u64,
        first_block_index: u64,
    ) -> (r: FileEntry8)
        requires
            counts_valid(item_counts),
            values_fit(item_counts, decompressed_size, decompressed_block_offset, file_path_index, first_block_index),
        ensures
            r.data == spec_entry8_word(item_counts, decompressed_size, decompressed_block_offset, file_path_index, first_block_index),
    {
        let c = item_counts;
        let used = c.used_bits() as u64;
        let size_width = c.decompressed_size_bits() as u64;
        let bb = c.block_count_bits as u64;
        let fb = c.file_count_bits as u64;
        let ob = c.decompressed_block_offset_bits as u64;
        let mut data: u64 = 0;
        data = set_var_field64(data, 0, bb, first_block_index);
        data = set_var_field64(data, bb, fb, file_path_index);
        data = set_var_field64(data, bb + fb, ob, decompressed_block_offset);
        data = set_var_field64(data, used, size_width, decompressed_size);
        FileEntry8 { data }
    }

    /// Packs the fields of a managed entry (all but the hash); each must fit in its field.
    pub fn from_file_entry(item_counts: FileEntryFieldsBits, entry: &FileEntry) -> (r: FileEntry8)
        requires
            counts_valid(item_counts),
            values_fit(item_counts, entry.decompressed_size, entry.decompressed_block_offset as u64, entry.file_path_index as u64, entry.first_block_index as u64),
        ensures
            r.data == spec_entry8_word(item_counts, entry.decompressed_size, entry.decompressed_block_offset as u64, entry.file_path_index as u64, entry.first_block_index as u64),
    {
        Self::new(
            item_counts,
            entry.decompressed_size,
            entry.decompressed_block_offset as u64,
            entry.file_path_index as u64,
            entry.first_block_index as u64,
        )
    }

    /// The packed data.
    pub fn to_u64(&self) -> (r: u64)
        ensures
            r == self.data,
    {
        self.data
    }

    /// The decompressed size.
    pub fn decompressed_size(&self, counts: FileEntryFieldsBits) -> (r: u64)
        requires
            counts_valid(counts),
        ensures
            r == field_get64(self.data, size_lo(counts), size_bits(counts)),
    {
        get_var_field64(self.data, counts.used_bits() as u64, counts.decompressed_size_bits() as u64)
    }

    /// The offset inside the decompressed block.
    pub fn decompressed_block_offset(&self, counts: FileEntryFieldsBits) -> (r: u64)
        requires
            counts_valid(counts),
        ensures
            r == field_get64(self.data, offset_lo(counts), counts.decompressed_block_offset_bits as u64),
    {
        get_var_field64(self.data, counts.file_count_bits as u64 + counts.block_count_bits as u64, counts.decompressed_block_offset_bits as u64)
    }

    /// The file path index.
    pub fn file_path_index(&self, counts: FileEntryFieldsBits) -> (r: u64)
        requires
            counts_valid(counts),
        ensures
            r == field_get64(self.data, path_lo(counts), counts.file_count_bits as u64),
    {
        get_var_field64(self.data, counts.block_count_bits as u64, counts.file_count_bits as u64)
    }

    /// The first block index.
    pub fn first_block_index(&self, counts: FileEntryFieldsBits) -> (r: u64)
        requires
            counts_valid(counts),
        ensures
            r == field_get64(self.data, 0, counts.block_count_bits as u64),
    {
        get_var_field64(self.data, 0, counts.block_count_bits as u64)
    }

    /// Appends the little endian bytes of the entry to `out`.
    pub fn to_writer(&self, out: &mut Vec<u8>)
        ensures
            final(out)@ == old(out)@ + le_bytes64(self.data),
    {
        push_u64_le(out, self.data);
    }

    /// Reads the entry whose little endian bytes start at `pos` of `data`.
    pub fn from_reader(data: &[u8], pos: usize) -> (r: FileEntry8)
        requires
            pos + 8 <= data@.len(),
        ensures
            r.data == read_u64_le(data@, pos as int),
    {
        FileEntry8 { data: read_u64_at(data, pos) }
    }

    /// Unpacks to a managed entry whose hash is 0; the offset and indices are truncated to
    /// 32 bits.
    pub fn to_file_entry(self, counts: FileEntryFieldsBits) -> (r: FileEntry)
        requires
            counts_valid(counts),
        ensures
            r == spec_entry8_to_file_entry(self.data, counts, 0),
    {
        FileEntry {
            decompressed_size: self.decompressed_size(counts),
            decompressed_block_offset: self.decompressed_block_offset(counts) as u32,
            file_path_index: self.file_path_index(counts) as u32,
            first_block_index: self.first_block_index(counts) as u32,
            hash: 0,
        }
    }
}

/// The managed entry unpacked from a packed word and a hash.
pub open spec fn spec_entry8_to_file_entry(data: u64, c: ItemCounts, hash: u64) -> FileEntry {
    FileEntry {
        hash,
        decompressed_size: field_get64(data, size_lo(c), size_bits(c)),
        decompressed_block_offset: field_get64(data, offset_lo(c), c.decompressed_block_offset_bits as u64) as u32,
        file_path_index: field_get64(data, path_lo(c), c.file_count_bits as u64) as u32,
        first_block_index: field_get64(data, 0, c.block_count_bits as u64) as u32,
    }
}

/// Unpacking a packed entry gives back each value that was packed, when it fits its field.
pub proof fn lemma_entry8_fields(c: ItemCounts, decompressed_size: u64, decompressed_block_offset: u64, file_path_index: u64, first_block_index: u64)
    requires
        counts_valid(c),
        values_fit(c, decompressed_size, decompressed_block_offset, file_path_index, first_block_index),
    ensures
        ({
            let w = spec_entry8_word(c, decompressed_size, decompressed_block_offset, file_path_index, first_block_index);
            &&& field_get64(w, size_lo(c), size_bits(c)) == decompressed_size
            &&& field_get64(w, offset_lo(c), c.decompressed_block_offset_bits as u64) == decompressed_block_offset
            &&& field_get64(w, path_lo(c), c.file_count_bits as u64) == file_path_index
            &&& field_get64(w, 0, c.block_count_bits as u64) == first_block_index
        }),
{
    let bb = c.block_count_bits as u64;
    let fb = c.file_count_bits as u64;
    let ob = c.decompressed_block_offset_bits as u64;
    let w1 = field_set64(0, 0, bb, first_block_index);
    let w2 = field_set64(w1, bb, fb, file_path_index);
    let ol = offset_lo(c);
    let w3 = field_set64(w2, ol, ob, decompressed_block_offset);
    let w4 = field_set64(w3, size_lo(c), size_bits(c), decompressed_size);
    lemma_field_get_set_same64(0, 0, bb, first_block_index);
    lemma_field_get_set_same64(w1, bb, fb, file_path_index);
    lemma_field_get_set_same64(w2, ol, ob, decompressed_block_offset);
    lemma_field_get_set_same64(w3, size_lo(c), size_bits(c), decompressed_size);
    lemma_field_get_set_other64(w1, bb, fb, file_path_index, 0, bb);
    lemma_field_get_set_other64(w2, ol, ob, decompressed_block_offset, 0, bb);
    lemma_field_get_set_other64(w3, size_lo(c), size_bits(c), decompressed_size, 0, bb);
    lemma_field_get_set_other64(w2, ol, ob, decompressed_block_offset, bb, fb);
    lemma_field_get_set_other64(w3, size_lo(c), size_bits(c), decompressed_size, bb, fb);
    lemma_field_get_set_other64(w3, size_lo(c), size_bits(c), decompressed_size, ol, ob);
}

/// A file entry in the Flexible Entry Format with hash: the hash, then the packed word.
#[derive(Clone, Copy, PartialEq, Eq, Hash, Debug, Structural)]
pub struct FileEntry16 {
    /// Hash of the file.
    pub hash: u64,
    /// The packed fields.
    pub entry: FileEntry8,
}

impl FileEntry16 {
    /// Size of the entry in bytes.
    pub const SIZE_BYTES: usize = 16;

    /// Packs a managed entry; each value must fit in its field.
    pub fn from_file_entry(item_counts: FileEntryFieldsBits, entry: &FileEntry) -> (r: FileEntry16)
        requires
            counts_valid(item_counts),
            values_fit(item_counts, entry.decompressed_size, entry.decompressed_block_offset as u64, entry.file_path_index as u64, entry.first_block_index as u64),
        ensures
            r.hash == entry.hash,
            r.entry.data == spec_entry8_word(item_counts, entry.decompressed_size, entry.decompressed_block_offset as u64, entry.file_path_index as u64, entry.first_block_index as u64),
    {
        FileEntry16 { hash: entry.hash, entry: FileEntry8::from_file_entry(item_counts, entry) }
    }

    /// Appends the little endian bytes of the entry to `out`.
    pub fn to_writer(&self, out: &mut Vec<u8>)
        ensures
            final(out)@ == old(out)@ + le_bytes64(self.hash) + le_bytes64(self.entry.data),
    {
        push_u64_le(out, self.hash);
        push_u64_le(out, self.entry.data);
    }

    /// Reads the entry whose little endian bytes start at `pos` of `data`.
    pub fn from_reader(data: &[u8], pos: usize) -> (r: FileEntry16)
        requires
            pos + 16 <= data@.len(),
        ensures
            r.hash == read_u64_le(data@, pos as int),
            r.entry.data == read_u64_le(data@, pos + 8),
    {
        let _len = data.len();
        FileEntry16 { hash: read_u64_at(data, pos), entry: FileEntry8 { data: read_u64_at(data, pos + 8) } }
    }

    /// Unpacks to a managed entry.
    pub fn to_file_entry(self, counts: FileEntryFieldsBits) -> (r: FileEntry)
        requires
            counts_valid(counts),
        ensures
            r == spec_entry8_to_file_entry(self.entry.data, counts, self.hash),
    {
        let mut e = self.entry.to_file_entry(counts);
        e.hash = self.hash;
        e
    }
}

} // verus!
