use crate::api::enums::compression_preference::CompressionPreference;
use crate::api::traits::has_file_size::HasFileSize;
use crate::api::traits::has_relative_path::HasRelativePath;
use crate::headers::managed::block_size::BlockSize;
use crate::headers::managed::file_entry::FileEntry;
use crate::headers::managed::v1::table_of_contents_builder::spec_largest_file_size;
use crate::headers::parser::path_order::{lemma_sorted_paths_unique, paths_sorted, relative_paths};
use crate::headers::parser::string_pool::{
    append_bytes, spec_max_pool_size, spec_v0_pool, StringPool, DEFAULT_COMPRESSION_LEVEL,
};
use crate::headers::parser::string_pool_common::StringPoolPackError;
use crate::headers::raw::toc::v2::fef64::fileentry8::{
    counts_valid, spec_entry8_word, values_fit, FileEntry16,
};
use crate::headers::raw::toc::v2::fef64::fileentrycommon::ItemCounts;
use crate::headers::raw::toc::v2::fef64::toc_header::{
    can_fit_within_42_bits, spec_can_fit_within_42_bits, spec_fef64_header_word, Fef64TocHeader,
};
use crate::headers::raw::toc::v2::format_selector::{
    determine_optimal_toc_format, spec_fef64_bits_in_range, spec_optimal_toc_format, ToCFormat,
};
use crate::headers::raw::toc::v2::native_v2_toc_block_entry::{
    spec_v2_block_entry_word, NativeV2TocBlockEntry,
};
use crate::headers::raw::toc::v2::presets::preset0_fileentry::{spec_p0_entry_bytes, write_p0_entry};
use crate::headers::raw::toc::v2::presets::preset0_header::{spec_preset0_header_word, Preset0TocHeader};
use crate::headers::raw::toc::v2::presets::preset1_fileentry::{spec_p1_entry_bytes, write_p1_entry};
use crate::headers::raw::toc::v2::presets::preset2_fileentry::{spec_p2_entry_bytes, write_p2_entry};
use crate::headers::raw::toc::v2::presets::preset3_fileentry::{spec_p3_entry_bytes, write_p3_entry};
use crate::headers::raw::toc::v2::presets::preset3_fileentry_nohash::{
    spec_p3nohash_entry_bytes, write_p3nohash_entry,
};
use crate::headers::raw::toc::v2::presets::preset3_header::{spec_preset3_header_word, Preset3TocHeader};
use crate::utilities::bit_count::{bits_needed_u32, bits_needed_usize, spec_bits_needed};
use crate::utilities::bits::{field_set64, set_var_field64};
use crate::utilities::bytes::{le_bytes32, le_bytes64, push_u32_le, push_u64_le};
use crate::utilities::compression::zstd::{spec_compress_bound, zstd_compressed};
use crate::utilities::compression::NxCompressionError;
use vstd::prelude::*;

verus! {

/// What the first step of writing a v2 table of contents finds.
#[derive(Debug, Clone, PartialEq, Eq)]
pub struct BuilderInfo {
    /// The format the table of contents should be written in.
    pub format: ToCFormat,
    /// Whether any file is larger than a chunk.
    pub can_create_chunks: bool,
    /// The size of the table.
    pub table_size: u32,
    /// Largest offset of decompressed data in a block.
    pub max_decomp_block_offset: u32,
    /// The raw data of the string pool.
    pub string_pool: Vec<u8>,
}

/// Errors that can occur when writing the binary table of contents.
#[derive(Debug, PartialEq, Eq, Clone, Copy, Structural)]
pub enum SerializeError {
    /// The format of the table of contents is not supported.
    UnsupportedTocFormat,
}

/// Errors that can occur when starting to write a table of contents.
#[derive(Debug, PartialEq, Eq, Clone, Copy, Structural)]
pub enum InitError {
    /// No table of contents format can hold the files to be archived.
    NoSuitableTocFormat(ToCFormat),
    /// The string pool could not be created.
    FailedToCreateStringPool(StringPoolPackError),
}

/// Bytes per file entry of a format: 8 for Preset 3 without hashes, 12 for Preset 1,
/// 16 for Preset 3 with hashes and for FEF64 (which the writer stores with hashes), 20
/// for Preset 0 and 24 for Preset 2.
pub open spec fn spec_v2_entry_size(format: ToCFormat) -> nat {
    match format {
        ToCFormat::Preset3NoHash => 8,
        ToCFormat::FEF64 => 16,
        ToCFormat::Preset1 => 12,
        ToCFormat::Preset3 => 16,
        ToCFormat::Preset0 => 20,
        ToCFormat::Preset2 => 24,
        ToCFormat::Error => 0,
    }
}

/// Whether the item counts of a FEF64 table do not fit in its header, so that they take
/// 8 more bytes after it.
pub open spec fn spec_fef64_needs_extra_8bytes(string_pool_len: nat, block_count: nat, file_count: nat) -> bool {
    spec_bits_needed(string_pool_len) + spec_bits_needed(block_count) + spec_bits_needed(file_count) > 42
}

/// Whether the item counts of a FEF64 table do not fit in its header, so that they take
/// 8 more bytes after it.
pub fn fef64_needs_extra_8bytes(string_pool_len: u32, block_count: u32, file_count: u32) -> (r: bool)
    ensures
        r == spec_fef64_needs_extra_8bytes(string_pool_len as nat, block_count as nat, file_count as nat),
{
    let a = bits_needed_u32(string_pool_len);
    let b = bits_needed_u32(block_count);
    let c = bits_needed_u32(file_count);
    proof {
        lemma_bits_needed_at_most_64(string_pool_len as nat);
        lemma_bits_needed_at_most_64(block_count as nat);
        lemma_bits_needed_at_most_64(file_count as nat);
    }
    a + b + c > 42
}

/// A number below `2^64` needs at most 64 bits.
pub proof fn lemma_bits_needed_at_most_64(x: nat)
    requires
        x <= u64::MAX,
    ensures
        spec_bits_needed(x) <= 64,
{
    vstd::arithmetic::power2::lemma2_to64();
    crate::utilities::bit_count::lemma_bits_needed_le(x, 64);
}

/// The size of the serialized table: the 8 byte header (and 8 more for FEF64 item counts
/// that do not fit in it), the file entries, 4 bytes per block and the string pool.
pub open spec fn spec_toc_size(format: ToCFormat, string_pool_len: nat, block_count: nat, file_count: nat) -> nat {
    let extra: nat = if format == ToCFormat::FEF64 && spec_fef64_needs_extra_8bytes(string_pool_len, block_count, file_count) { 8 } else { 0 };
    8 + extra + spec_v2_entry_size(format) * file_count + 4 * block_count + string_pool_len
}

/// Calculates the size of the table after serialization, for pre-allocating space.
pub fn calculate_toc_size(format: ToCFormat, string_pool_len: u32, block_count: u32, file_count: u32) -> (r: u32)
    requires
        spec_toc_size(format, string_pool_len as nat, block_count as nat, file_count as nat) <= u32::MAX,
    ensures
        r == spec_toc_size(format, string_pool_len as nat, block_count as nat, file_count as nat),
{
    let mut toc_size: u32 = 8;
    if format == ToCFormat::FEF64 && fef64_needs_extra_8bytes(string_pool_len, block_count, file_count) {
        toc_size = toc_size + 8;
    }
    let entry_size: u32 = match format {
        ToCFormat::Preset3NoHash => 8,
        ToCFormat::FEF64 => 16,
        ToCFormat::Preset1 => 12,
        ToCFormat::Preset3 => 16,
        ToCFormat::Preset0 => 20,
        ToCFormat::Preset2 => 24,
        ToCFormat::Error => 0,
    };
    proof {
        assert(entry_size * file_count <= u32::MAX) by (nonlinear_arith)
            requires
                8 + entry_size * file_count + 4 * block_count + string_pool_len <= u32::MAX,
                block_count >= 0, string_pool_len >= 0;
    }
    toc_size = toc_size + entry_size * file_count;
    toc_size = toc_size + block_count * 4;
    toc_size = toc_size + string_pool_len;
    toc_size
}

/// The item counts of a FEF64 table packed in one word: from the lowest bits up, the file
/// count, the block count and the string pool size, each in the given number of bits.
pub open spec fn spec_item_counts_word(string_pool_len: u64, pool_bits: u64, block_count: u64, block_bits: u64, file_count: u64, file_bits: u64) -> u64 {
    field_set64(field_set64(field_set64(0, 0, file_bits, file_count), file_bits, block_bits, block_count), (file_bits + block_bits) as u64, pool_bits, string_pool_len)
}

/// Packs the item counts of a FEF64 table into `item_counts`; each value is truncated to
/// its field.
pub fn pack_item_counts(
    string_pool_len: u64,
    string_pool_size_bits: u8,
    block_count: u64,
    block_count_bits: u8,
    file_count: u64,
    file_count_bits: u8,
    item_counts: &mut u64,
)
    requires
        string_pool_size_bits + block_count_bits + file_count_bits <= 64,
    ensures
        *final(item_counts) == spec_item_counts_word(string_pool_len, string_pool_size_bits as u64, block_count, block_count_bits as u64, file_count, file_count_bits as u64),
{
    let fb = file_count_bits as u64;
    let bb = block_count_bits as u64;
    let pb = string_pool_size_bits as u64;
    let mut w: u64 = 0;
    w = set_var_field64(w, 0, fb, file_count);
    w = set_var_field64(w, fb, bb, block_count);
    w = set_var_field64(w, fb + bb, pb, string_pool_len);
    *item_counts = w;
}

/// The field widths of the entries of a FEF64 table.
pub open spec fn spec_fef64_counts(block_count: nat, file_count: nat, max_decomp_block_offset: u32) -> ItemCounts {
    ItemCounts {
        block_count_bits: spec_bits_needed(block_count) as u8,
        file_count_bits: spec_bits_needed(file_count) as u8,
        decompressed_block_offset_bits: spec_bits_needed(max_decomp_block_offset as nat) as u8,
    }
}

/// The header of a v2 table of contents (with the extra item counts word of FEF64 when it
/// is needed).
pub open spec fn spec_v2_header_bytes(format: ToCFormat, pool_len: nat, block_count: nat, file_count: nat, max_decomp_block_offset: u32) -> Seq<u8> {
    match format {
        ToCFormat::FEF64 => {
            let pb = spec_bits_needed(pool_len);
            let bb = spec_bits_needed(block_count);
            let fb = spec_bits_needed(file_count);
            let ob = spec_bits_needed(max_decomp_block_offset as nat);
            let ic = spec_item_counts_word(pool_len as u64, pb as u64, block_count as u64, bb as u64, file_count as u64, fb as u64);
            le_bytes64(spec_fef64_header_word(true, pb as u8, fb as u8, bb as u8, ob as u8, ic))
                + (if spec_fef64_needs_extra_8bytes(pool_len, block_count, file_count) { le_bytes64(ic) } else { Seq::empty() })
        },
        ToCFormat::Preset0 => le_bytes64(spec_preset0_header_word(0, pool_len as u32, block_count as u32, file_count as u32)),
        ToCFormat::Preset1 => le_bytes64(spec_preset0_header_word(1, pool_len as u32, block_count as u32, file_count as u32)),
        ToCFormat::Preset2 => le_bytes64(spec_preset0_header_word(2, pool_len as u32, block_count as u32, file_count as u32)),
        ToCFormat::Preset3 => le_bytes64(spec_preset3_header_word(true, pool_len as u32, block_count as u16, file_count as u16)),
        ToCFormat::Preset3NoHash => le_bytes64(spec_preset3_header_word(false, pool_len as u32, block_count as u16, file_count as u16)),
        ToCFormat::Error => Seq::empty(),
    }
}

/// The serialized form of a file entry in a format (FEF64 entries with their hash).
pub open spec fn spec_v2_entry_bytes(format: ToCFormat, c: ItemCounts, e: FileEntry) -> Seq<u8> {
    match format {
        ToCFormat::FEF64 => le_bytes64(e.hash) + le_bytes64(spec_entry8_word(c, e.decompressed_size, e.decompressed_block_offset as u64, e.file_path_index as u64, e.first_block_index as u64)),
        ToCFormat::Preset0 => spec_p0_entry_bytes(e),
        ToCFormat::Preset1 => spec_p1_entry_bytes(e),
        ToCFormat::Preset2 => spec_p2_entry_bytes(e),
        ToCFormat::Preset3 => spec_p3_entry_bytes(e),
        ToCFormat::Preset3NoHash => spec_p3nohash_entry_bytes(e),
        ToCFormat::Error => Seq::empty(),
    }
}

/// The serialized form of the file entries.
pub open spec fn spec_v2_entries_bytes(entries: Seq<FileEntry>, format: ToCFormat, c: ItemCounts) -> Seq<u8>
    decreases entries.len(),
{
    if entries.len() == 0 {
        Seq::empty()
    } else {
        spec_v2_entries_bytes(entries.drop_last(), format, c) + spec_v2_entry_bytes(format, c, entries.last())
    }
}

/// The serialized form of the block entries.
pub open spec fn spec_v2_blocks_bytes(blocks: Seq<BlockSize>, compressions: Seq<CompressionPreference>) -> Seq<u8>
    decreases blocks.len(),
{
    if blocks.len() == 0 {
        Seq::empty()
    } else {
        spec_v2_blocks_bytes(blocks.drop_last(), compressions) + le_bytes32(
            spec_v2_block_entry_word(blocks.last().compressed_size, compressions[blocks.len() - 1]) as u32,
        )
    }
}

/// The serialized v2 table of contents: the header, the file entries, the block entries
/// and the raw string pool.
#[verifier::opaque]
pub open spec fn spec_v2_table_bytes(
    compressions: Seq<CompressionPreference>,
    blocks: Seq<BlockSize>,
    entries: Seq<FileEntry>,
    format: ToCFormat,
    max_decomp_block_offset: u32,
    pool: Seq<u8>,
) -> Seq<u8> {
    spec_v2_header_bytes(format, pool.len(), blocks.len(), entries.len(), max_decomp_block_offset)
        + spec_v2_entries_bytes(entries, format, spec_fef64_counts(blocks.len(), entries.len(), max_decomp_block_offset))
        + spec_v2_blocks_bytes(blocks, compressions) + pool
}

/// A FEF64 table can be written: the item counts fit in a word, the entry fields leave
/// room for the size, and every entry's values fit their fields.
pub open spec fn spec_fef64_writable(entries: Seq<FileEntry>, block_count: nat, pool_len: nat, max_decomp_block_offset: u32) -> bool {
    let c = spec_fef64_counts(block_count, entries.len(), max_decomp_block_offset);
    &&& spec_bits_needed(pool_len) + spec_bits_needed(block_count) + spec_bits_needed(entries.len()) <= 64
    &&& counts_valid(c)
    &&& forall|i: int| 0 <= i < entries.len() ==> #[trigger] values_fit(
        c,
        entries[i].decompressed_size,
        entries[i].decompressed_block_offset as u64,
        entries[i].file_path_index as u64,
        entries[i].first_block_index as u64,
    )
}

/// Appends the serialized form of one file entry.
fn write_v2_entry(entry: &FileEntry, format: ToCFormat, c: ItemCounts, out: &mut Vec<u8>)
    requires
        format == ToCFormat::FEF64 ==> counts_valid(c) && values_fit(c, entry.decompressed_size, entry.decompressed_block_offset as u64, entry.file_path_index as u64, entry.first_block_index as u64),
    ensures
        final(out)@ == old(out)@ + spec_v2_entry_bytes(format, c, *entry),
{
    match format {
        ToCFormat::FEF64 => {
            FileEntry16::from_file_entry(c, entry).to_writer(out);
            assert(out@ =~= old(out)@ + spec_v2_entry_bytes(format, c, *entry));
        },
        ToCFormat::Preset0 => write_p0_entry(entry, out),
        ToCFormat::Preset1 => write_p1_entry(entry, out),
        ToCFormat::Preset2 => write_p2_entry(entry, out),
        ToCFormat::Preset3 => write_p3_entry(entry, out),
        ToCFormat::Preset3NoHash => write_p3nohash_entry(entry, out),
        ToCFormat::Error => {
            assert(out@ =~= old(out)@ + spec_v2_entry_bytes(format, c, *entry));
        },
    }
}

/// Appends the serialized file entries.
fn write_entries(entries: &[FileEntry], format: ToCFormat, c: ItemCounts, out: &mut Vec<u8>)
    requires
        format == ToCFormat::FEF64 ==> counts_valid(c),
        format == ToCFormat::FEF64 ==> forall|i: int| 0 <= i < entries@.len() ==> #[trigger] values_fit(
            c,
            entries@[i].decompressed_size,
            entries@[i].decompressed_block_offset as u64,
            entries@[i].file_path_index as u64,
            entries@[i].first_block_index as u64,
        ),
    ensures
        final(out)@ == old(out)@ + spec_v2_entries_bytes(entries@, format, c),
{
    let mut i: usize = 0;
    while i < entries.len()
        invariant
            i <= entries@.len(),
            format == ToCFormat::FEF64 ==> counts_valid(c),
            format == ToCFormat::FEF64 ==> forall|j: int| 0 <= j < entries@.len() ==> #[trigger] values_fit(
                c,
                entries@[j].decompressed_size,
                entries@[j].decompressed_block_offset as u64,
                entries@[j].file_path_index as u64,
                entries@[j].first_block_index as u64,
            ),
            out@ == old(out)@ + spec_v2_entries_bytes(entries@.take(i as int), format, c),
        decreases entries@.len() - i,
    {
        write_v2_entry(&entries[i], format, c, out);
        proof {
            assert(entries@.take(i + 1).drop_last() =~= entries@.take(i as int));
            assert(out@ =~= old(out)@ + spec_v2_entries_bytes(entries@.take(i + 1), format, c));
        }
        i = i + 1;
    }
    assert(entries@.take(i as int) =~= entries@);
}

/// Appends the block entries.
fn write_blocks(blocks: &[BlockSize], compressions: &[CompressionPreference], out: &mut Vec<u8>)
    requires
        blocks@.len() == compressions@.len(),
        forall|i: int| 0 <= i < compressions@.len() ==> compressions@[i] != CompressionPreference::NoPreference,
    ensures
        final(out)@ == old(out)@ + spec_v2_blocks_bytes(blocks@, compressions@),
{
    let mut k: usize = 0;
    while k < blocks.len()
        invariant
            k <= blocks@.len(),
            blocks@.len() == compressions@.len(),
            forall|i: int| 0 <= i < compressions@.len() ==> compressions@[i] != CompressionPreference::NoPreference,
            out@ == old(out)@ + spec_v2_blocks_bytes(blocks@.take(k as int), compressions@),
        decreases blocks@.len() - k,
    {
        NativeV2TocBlockEntry::to_writer(blocks[k].compressed_size, compressions[k], out);
        proof {
            assert(blocks@.take(k + 1).drop_last() =~= blocks@.take(k as int));
            assert(out@ =~= old(out)@ + spec_v2_blocks_bytes(blocks@.take(k + 1), compressions@));
        }
        k = k + 1;
    }
    assert(blocks@.take(k as int) =~= blocks@);
}

/// Serializes a table in the Flexible Entry Format (with hashes).
fn serialize_table_of_contents_fef64(
    block_compressions: &[CompressionPreference],
    blocks: &[BlockSize],
    entries: &[FileEntry],
    info: &BuilderInfo,
) -> (r: Vec<u8>)
    requires
        block_compressions@.len() == blocks@.len(),
        forall|i: int| 0 <= i < block_compressions@.len() ==> block_compressions@[i] != CompressionPreference::NoPreference,
        spec_fef64_writable(entries@, blocks@.len(), info.string_pool@.len(), info.max_decomp_block_offset),
    ensures
        r@ == spec_v2_table_bytes(block_compressions@, blocks@, entries@, ToCFormat::FEF64, info.max_decomp_block_offset, info.string_pool@),
{
    let file_bits = bits_needed_usize(entries.len());
    let block_bits = bits_needed_usize(blocks.len());
    let pool_bits = bits_needed_usize(info.string_pool.len());
    let offset_bits = bits_needed_u32(info.max_decomp_block_offset);
    proof {
        lemma_bits_needed_at_most_64(entries@.len());
        lemma_bits_needed_at_most_64(blocks@.len());
        lemma_bits_needed_at_most_64(info.string_pool@.len());
        lemma_bits_needed_at_most_64(info.max_decomp_block_offset as nat);
    }
    let file_count_bits = file_bits as u8;
    let block_count_bits = block_bits as u8;
    let string_pool_size_bits = pool_bits as u8;
    let block_offset_bits = offset_bits as u8;
    let needs_extra_8_bytes = !can_fit_within_42_bits(string_pool_size_bits, block_count_bits, file_count_bits);
    let mut item_counts: u64 = 0;
    pack_item_counts(
        info.string_pool.len() as u64,
        string_pool_size_bits,
        blocks.len() as u64,
        block_count_bits,
        entries.len() as u64,
        file_count_bits,
        &mut item_counts,
    );
    let header = Fef64TocHeader::new(true, string_pool_size_bits, file_count_bits, block_count_bits, block_offset_bits, item_counts);
    let mut out: Vec<u8> = Vec::new();
    push_u64_le(&mut out, header.0);
    if needs_extra_8_bytes {
        push_u64_le(&mut out, item_counts);
    }
    let ghost head = out@;
    assert(head == spec_v2_header_bytes(ToCFormat::FEF64, info.string_pool@.len(), blocks@.len(), entries@.len(), info.max_decomp_block_offset));
    let fields_bits = ItemCounts::new(block_count_bits, file_count_bits, block_offset_bits);
    write_entries(entries, ToCFormat::FEF64, fields_bits, &mut out);
    if blocks.len() > 0 {
        write_blocks(blocks, block_compressions, &mut out);
    } else {
        assert(spec_v2_blocks_bytes(blocks@, block_compressions@) =~= Seq::empty());
        assert(out@ =~= out@ + spec_v2_blocks_bytes(blocks@, block_compressions@));
    }
    append_bytes(&mut out, info.string_pool.as_slice());
    proof {
        reveal(spec_v2_table_bytes);
    }
    out
}

/// Serializes a table in one of the preset layouts.
fn serialize_table_of_contents_preset(
    block_compressions: &[CompressionPreference],
    blocks: &[BlockSize],
    entries: &[FileEntry],
    info: &BuilderInfo,
    format: ToCFormat,
) -> (r: Vec<u8>)
    requires
        format != ToCFormat::FEF64,
        format != ToCFormat::Error,
        block_compressions@.len() == blocks@.len(),
        forall|i: int| 0 <= i < block_compressions@.len() ==> block_compressions@[i] != CompressionPreference::NoPreference,
    ensures
        r@ == spec_v2_table_bytes(block_compressions@, blocks@, entries@, format, info.max_decomp_block_offset, info.string_pool@),
{
    let mut out: Vec<u8> = Vec::new();
    match format {
        ToCFormat::Preset3 => {
            let header = Preset3TocHeader::new(true, info.string_pool.len() as u32, blocks.len() as u16, entries.len() as u16);
            push_u64_le(&mut out, header.0);
        },
        ToCFormat::Preset3NoHash => {
            let header = Preset3TocHeader::new(false, info.string_pool.len() as u32, blocks.len() as u16, entries.len() as u16);
            push_u64_le(&mut out, header.0);
        },
        _ => {
            let preset_no: u8 = match format {
                ToCFormat::Preset1 => 1,
                ToCFormat::Preset2 => 2,
                _ => 0,
            };
            let header = Preset0TocHeader::new(preset_no, info.string_pool.len() as u32, blocks.len() as u32, entries.len() as u32);
            push_u64_le(&mut out, header.0);
        },
    }
    let fields_bits = ItemCounts::new(0, 0, 0);
    write_entries(entries, format, fields_bits, &mut out);
    if blocks.len() > 0 {
        write_blocks(blocks, block_compressions, &mut out);
    } else {
        assert(spec_v2_blocks_bytes(blocks@, block_compressions@) =~= Seq::empty());
        assert(out@ =~= out@ + spec_v2_blocks_bytes(blocks@, block_compressions@));
    }
    append_bytes(&mut out, info.string_pool.as_slice());
    proof {
        reveal(spec_v2_table_bytes);
        assert(spec_v2_entries_bytes(entries@, format, fields_bits) == spec_v2_entries_bytes(entries@, format, spec_fef64_counts(blocks@.len(), entries@.len(), info.max_decomp_block_offset))) by {
            lemma_preset_entries_bytes_ignore_counts(entries@, format, fields_bits, spec_fef64_counts(blocks@.len(), entries@.len(), info.max_decomp_block_offset));
        }
    }
    out
}

/// Outside FEF64, the serialized entries do not depend on the field widths.
proof fn lemma_preset_entries_bytes_ignore_counts(entries: Seq<FileEntry>, format: ToCFormat, c1: ItemCounts, c2: ItemCounts)
    requires
        format != ToCFormat::FEF64,
    ensures
        spec_v2_entries_bytes(entries, format, c1) == spec_v2_entries_bytes(entries, format, c2),
    decreases entries.len(),
{
    if entries.len() > 0 {
        lemma_preset_entries_bytes_ignore_counts(entries.drop_last(), format, c1, c2);
    }
}

/// What serializing a v2 table of contents gives.
pub open spec fn spec_serialize_v2_outcome(
    compressions: Seq<CompressionPreference>,
    blocks: Seq<BlockSize>,
    entries: Seq<FileEntry>,
    format: ToCFormat,
    max_decomp_block_offset: u32,
    pool: Seq<u8>,
    r: Result<Vec<u8>, SerializeError>,
) -> bool {
    if format == ToCFormat::Error {
        r == Err::<Vec<u8>, SerializeError>(SerializeError::UnsupportedTocFormat)
    } else {
        r matches Ok(v) && v@ == spec_v2_table_bytes(compressions, blocks, entries, format, max_decomp_block_offset, pool)
    }
}

/// Serializes the v2 table of contents in the format of `info` (obtained from
/// [`init_toc_creation`]): the header, the file entries, the block entries and the raw
/// string pool data. Values are truncated to the fields of the preset layouts; in the
/// Flexible Entry Format every value must fit its field.
///
/// # Errors
/// * `UnsupportedTocFormat` for [`ToCFormat::Error`].
pub fn serialize_table_of_contents(
    block_compressions: &[CompressionPreference],
    blocks: &[BlockSize],
    entries: &[FileEntry],
    info: &BuilderInfo,
) -> (r: Result<Vec<u8>, SerializeError>)
    requires
        block_compressions@.len() == blocks@.len(),
        forall|i: int| 0 <= i < block_compressions@.len() ==> block_compressions@[i] != CompressionPreference::NoPreference,
        info.format == ToCFormat::FEF64 ==> spec_fef64_writable(entries@, blocks@.len(), info.string_pool@.len(), info.max_decomp_block_offset),
    ensures
        spec_serialize_v2_outcome(block_compressions@, blocks@, entries@, info.format, info.max_decomp_block_offset, info.string_pool@, r),
{
    match info.format {
        ToCFormat::FEF64 => Ok(serialize_table_of_contents_fef64(block_compressions, blocks, entries, info)),
        ToCFormat::Error => Err(SerializeError::UnsupportedTocFormat),
        _ => Ok(serialize_table_of_contents_preset(block_compressions, blocks, entries, info, info.format)),
    }
}

/// The largest decompressed block offset: `init`, raised to the largest offset of any block.
pub open spec fn spec_max_block_offset(offsets: Seq<u32>, init: u32) -> u32
    decreases offsets.len(),
{
    if offsets.len() == 0 {
        init
    } else {
        let rest = spec_max_block_offset(offsets.drop_last(), init);
        if offsets.last() > rest {
            offsets.last()
        } else {
            rest
        }
    }
}

/// What creating the builder information from a string pool gives: the format that
/// [`determine_optimal_toc_format`] picks for the counts, and the size of the table in
/// it; or `NoSuitableTocFormat` when no format fits.
pub open spec fn spec_builder_info_outcome(
    pool: Seq<u8>,
    largest_file_size: u64,
    can_create_chunks: bool,
    max_decomp_block_offset: u32,
    block_count: nat,
    file_count: nat,
    need_hashes: bool,
    r: Result<BuilderInfo, InitError>,
) -> bool {
    let format = spec_optimal_toc_format(pool.len() as u32, max_decomp_block_offset, block_count as u32, file_count as u32, need_hashes, largest_file_size);
    if format == ToCFormat::Error {
        r == Err::<BuilderInfo, InitError>(InitError::NoSuitableTocFormat(ToCFormat::Error))
    } else {
        &&& r is Ok
        &&& r->Ok_0.format == format
        &&& r->Ok_0.can_create_chunks == can_create_chunks
        &&& r->Ok_0.table_size == spec_toc_size(format, pool.len(), block_count, file_count)
        &&& r->Ok_0.max_decomp_block_offset == max_decomp_block_offset
        &&& r->Ok_0.string_pool@ == pool
    }
}

/// The table of the format that [`determine_optimal_toc_format`] picks for these counts
/// takes at most `u32::MAX` bytes, or no format is picked.
pub open spec fn spec_table_fits(
    pool_len: nat,
    max_decomp_block_offset: u32,
    block_count: nat,
    file_count: nat,
    need_hashes: bool,
    largest_file_size: u64,
) -> bool {
    let format = spec_optimal_toc_format(pool_len as u32, max_decomp_block_offset, block_count as u32, file_count as u32, need_hashes, largest_file_size);
    format == ToCFormat::Error || spec_toc_size(format, pool_len, block_count, file_count) <= u32::MAX
}

/// Creates the builder information from the packed string pool and what was found of the
/// files and blocks: picks the table format and calculates the table's size.
///
/// # Errors
/// * `NoSuitableTocFormat` when no format can hold the counts.
pub fn builder_info_from_pool(
    string_pool: Vec<u8>,
    largest_file_size: u64,
    can_create_chunks: bool,
    max_decomp_block_offset: u32,
    block_count: usize,
    file_count: usize,
    need_hashes: bool,
) -> (r: Result<BuilderInfo, InitError>)
    requires
        string_pool@.len() <= u32::MAX,
        block_count <= u32::MAX,
        file_count <= u32::MAX,
        spec_table_fits(string_pool@.len(), max_decomp_block_offset, block_count as nat, file_count as nat, need_hashes, largest_file_size),
        spec_fef64_bits_in_range(string_pool@.len() as u32, max_decomp_block_offset, block_count as u32, file_count as u32),
    ensures
        spec_builder_info_outcome(string_pool@, largest_file_size, can_create_chunks, max_decomp_block_offset, block_count as nat, file_count as nat, need_hashes, r),
{
    let string_pool_len = string_pool.len() as u32;
    let block_count = block_count as u32;
    let file_count = file_count as u32;
    let format = determine_optimal_toc_format(
        string_pool_len,
        max_decomp_block_offset,
        block_count,
        file_count,
        need_hashes,
        largest_file_size,
    );
    if format == ToCFormat::Error {
        return Err(InitError::NoSuitableTocFormat(format));
    }
    let toc_size = calculate_toc_size(format, string_pool_len, block_count, file_count);
    Ok(BuilderInfo {
        format,
        can_create_chunks,
        table_size: toc_size,
        max_decomp_block_offset,
        string_pool,
    })
}

/// The widths of the largest offset, the block count and the file count leave the bits
/// of the size within 64, or one of them is too wide for FEF64 anyway.
pub open spec fn spec_offset_bits_in_range(max_decomp_block_offset: u32, block_count: nat, file_count: nat) -> bool {
    let d = spec_bits_needed(max_decomp_block_offset as nat);
    let b = spec_bits_needed(block_count);
    let c = spec_bits_needed(file_count);
    d > 31 || b > 31 || c > 31 || d + b + c <= 64
}

/// The compressed V0 string pool of the files in the order `sorted`, when packing it
/// succeeds.
pub open spec fn spec_packed_v0_pool<T: HasRelativePath>(sorted: Seq<T>) -> Option<Seq<u8>> {
    let pool = spec_v0_pool(relative_paths(sorted));
    if spec_compress_bound(pool.len() as int) > spec_max_pool_size() {
        None
    } else {
        zstd_compressed(DEFAULT_COMPRESSION_LEVEL, pool)
    }
}

/// The table that starting to write a table of contents for `files` sizes fits in 32
/// bits: in whatever order by path the files end up, when their string pool packs, the
/// table of the format picked for the counts takes at most `u32::MAX` bytes.
pub open spec fn spec_init_table_fits<T: HasFileSize + HasRelativePath>(
    files: Seq<T>,
    block_max_offsets: Seq<u32>,
    max_decomp_block_size: u32,
    need_hashes: bool,
) -> bool {
    forall|sorted: Seq<T>|
        #![trigger paths_sorted(sorted), sorted.to_multiset()]
        sorted.to_multiset() == files.to_multiset() && paths_sorted(sorted) ==> match spec_packed_v0_pool(sorted) {
            Some(c) => spec_table_fits(
                c.len(),
                spec_max_block_offset(block_max_offsets, max_decomp_block_size),
                block_max_offsets.len(),
                files.len(),
                need_hashes,
                spec_largest_file_size(files),
            ),
            None => true,
        }
}

/// What starting to write a table of contents gives for the files (before and after
/// they are sorted by path) and the largest decompressed offsets of the blocks: the
/// error for a string pool that could exceed its maximum size, else the V0 string pool
/// compressed at [`DEFAULT_COMPRESSION_LEVEL`]: the error of the compressor, or the
/// builder information for the compressed pool.
pub open spec fn spec_init_outcome<T: HasFileSize + HasRelativePath>(
    old_files: Seq<T>,
    new_files: Seq<T>,
    block_max_offsets: Seq<u32>,
    chunk_size: u32,
    max_decomp_block_size: u32,
    need_hashes: bool,
    r: Result<BuilderInfo, InitError>,
) -> bool {
    let pool = spec_v0_pool(relative_paths(new_files));
    if spec_compress_bound(pool.len() as int) > spec_max_pool_size() {
        r == Err::<BuilderInfo, InitError>(InitError::FailedToCreateStringPool(StringPoolPackError::PoolTooLarge))
    } else {
        match zstd_compressed(DEFAULT_COMPRESSION_LEVEL, pool) {
            None => r == Err::<BuilderInfo, InitError>(
                InitError::FailedToCreateStringPool(StringPoolPackError::FailedToCompress(NxCompressionError::ZStandard)),
            ),
            Some(c) => spec_builder_info_outcome(
                c,
                spec_largest_file_size(old_files),
                exists|i: int| 0 <= i < old_files.len() && #[trigger] old_files[i].spec_file_size() > chunk_size,
                spec_max_block_offset(block_max_offsets, max_decomp_block_size),
                block_max_offsets.len(),
                new_files.len(),
                need_hashes,
                r,
            ),
        }
    }
}

/// The largest of the blocks' largest decompressed offsets and `init`.
fn max_block_offset(block_max_offsets: &[u32], init: u32) -> (r: u32)
    ensures
        r == spec_max_block_offset(block_max_offsets@, init),
{
    let mut max_offset = init;
    let mut k: usize = 0;
    while k < block_max_offsets.len()
        invariant
            k <= block_max_offsets@.len(),
            max_offset == spec_max_block_offset(block_max_offsets@.take(k as int), init),
        decreases block_max_offsets@.len() - k,
    {
        proof {
            assert(block_max_offsets@.take(k + 1).drop_last() =~= block_max_offsets@.take(k as int));
        }
        if block_max_offsets[k] > max_offset {
            max_offset = block_max_offsets[k];
        }
        k = k + 1;
    }
    assert(block_max_offsets@.take(k as int) =~= block_max_offsets@);
    max_offset
}

/// The size of the largest file, and whether any file is larger than `chunk_size`.
fn file_size_facts<T: HasFileSize>(files: &[T], chunk_size: u32) -> (r: (u64, bool))
    ensures
        r.0 == spec_largest_file_size(files@),
        r.1 == exists|j: int| 0 <= j < files@.len() && #[trigger] files@[j].spec_file_size() > chunk_size,
{
    let mut largest_file_size: u64 = 0;
    let mut can_create_chunks = false;
    let mut i: usize = 0;
    while i < files.len()
        invariant
            i <= files@.len(),
            largest_file_size == spec_largest_file_size(files@.take(i as int)),
            can_create_chunks == (exists|j: int| 0 <= j < i && #[trigger] files@[j].spec_file_size() > chunk_size),
        decreases files@.len() - i,
    {
        let file_size = files[i].file_size();
        proof {
            assert(files@.take(i + 1).drop_last() =~= files@.take(i as int));
        }
        if file_size > largest_file_size {
            largest_file_size = file_size;
        }
        if file_size > chunk_size as u64 {
            can_create_chunks = true;
        }
        i = i + 1;
    }
    assert(files@.take(i as int) =~= files@);
    (largest_file_size, can_create_chunks)
}

/// The largest file size of `items` is at least the size of each item, and is zero or
/// the size of one of them.
proof fn lemma_largest_file_size_bounds<T: HasFileSize>(items: Seq<T>)
    ensures
        forall|i: int| 0 <= i < items.len() ==> #[trigger] items[i].spec_file_size() <= spec_largest_file_size(items),
        spec_largest_file_size(items) == 0
            || exists|i: int| 0 <= i < items.len() && #[trigger] items[i].spec_file_size() == spec_largest_file_size(items),
    decreases items.len(),
{
    if items.len() > 0 {
        let rest = items.drop_last();
        lemma_largest_file_size_bounds(rest);
        assert forall|i: int| 0 <= i < items.len() implies #[trigger] items[i].spec_file_size() <= spec_largest_file_size(items) by {
            if i < items.len() - 1 {
                assert(items[i] == rest[i]);
            }
        }
        if spec_largest_file_size(items) != 0 {
            if items.last().spec_file_size() > spec_largest_file_size(rest) {
                assert(items[items.len() - 1].spec_file_size() == spec_largest_file_size(items));
            } else {
                let i = choose|i: int| 0 <= i < rest.len() && #[trigger] rest[i].spec_file_size() == spec_largest_file_size(rest);
                assert(items[i] == rest[i]);
            }
        }
    }
}

/// Two arrangements of the same items have the same largest file, and the same answer
/// to whether any file is larger than `chunk_size`.
proof fn lemma_file_facts_rearranged<T: HasFileSize>(a: Seq<T>, b: Seq<T>, chunk_size: u32)
    requires
        a.to_multiset() == b.to_multiset(),
    ensures
        spec_largest_file_size(a) == spec_largest_file_size(b),
        (exists|i: int| 0 <= i < a.len() && #[trigger] a[i].spec_file_size() > chunk_size)
            == (exists|i: int| 0 <= i < b.len() && #[trigger] b[i].spec_file_size() > chunk_size),
{
    broadcast use vstd::seq_lib::group_to_multiset_ensures;
    lemma_largest_file_size_bounds(a);
    lemma_largest_file_size_bounds(b);
    assert forall|i: int| 0 <= i < a.len() implies #[trigger] a[i].spec_file_size() <= spec_largest_file_size(b) by {
        assert(a.to_multiset().count(a[i]) > 0);
        assert(b.contains(a[i]));
    }
    assert forall|i: int| 0 <= i < b.len() implies #[trigger] b[i].spec_file_size() <= spec_largest_file_size(a) by {
        assert(b.to_multiset().count(b[i]) > 0);
        assert(a.contains(b[i]));
    }
    if exists|i: int| 0 <= i < a.len() && #[trigger] a[i].spec_file_size() > chunk_size {
        let i = choose|i: int| 0 <= i < a.len() && #[trigger] a[i].spec_file_size() > chunk_size;
        assert(a.to_multiset().count(a[i]) > 0);
        assert(b.contains(a[i]));
    }
    if exists|i: int| 0 <= i < b.len() && #[trigger] b[i].spec_file_size() > chunk_size {
        let i = choose|i: int| 0 <= i < b.len() && #[trigger] b[i].spec_file_size() > chunk_size;
        assert(b.to_multiset().count(b[i]) > 0);
        assert(a.contains(b[i]));
    }
}

/// The size of the table of a format, computed in 64 bits (where it always fits).
fn toc_size_u64(format: ToCFormat, string_pool_len: u32, block_count: u32, file_count: u32) -> (r: u64)
    ensures
        r == spec_toc_size(format, string_pool_len as nat, block_count as nat, file_count as nat),
{
    let extra: u64 = if format == ToCFormat::FEF64 && fef64_needs_extra_8bytes(string_pool_len, block_count, file_count) {
        8
    } else {
        0
    };
    let entry_size: u64 = match format {
        ToCFormat::Preset3NoHash => 8,
        ToCFormat::FEF64 => 16,
        ToCFormat::Preset1 => 12,
        ToCFormat::Preset3 => 16,
        ToCFormat::Preset0 => 20,
        ToCFormat::Preset2 => 24,
        ToCFormat::Error => 0,
    };
    proof {
        assert(entry_size * file_count <= 24 * 0xFFFF_FFFFu64) by (nonlinear_arith)
            requires entry_size <= 24, file_count <= 0xFFFF_FFFFu64;
    }
    8 + extra + entry_size * (file_count as u64) + 4 * (block_count as u64) + string_pool_len as u64
}

/// Starts writing a v2 table of contents as [`init_toc_creation`] does, when the table it
/// sizes fits in 32 bits; gives `None` when it does not. The files are sorted by path, in
/// place, either way.
///
/// # Errors
/// * `FailedToCreateStringPool` when the string pool cannot be packed.
/// * `NoSuitableTocFormat` when no format can hold the counts.
pub fn try_init_toc_creation<T: HasFileSize + HasRelativePath>(
    files: &mut [T],
    block_max_offsets: &[u32],
    chunk_size: u32,
    max_decomp_block_size: u32,
    need_hashes: bool,
) -> (r: Option<Result<BuilderInfo, InitError>>)
    requires
        old(files)@.len() <= u32::MAX,
        block_max_offsets@.len() <= u32::MAX,
        spec_offset_bits_in_range(spec_max_block_offset(block_max_offsets@, max_decomp_block_size), block_max_offsets@.len(), old(files)@.len()),
    ensures
        final(files)@.to_multiset() == old(files)@.to_multiset(),
        paths_sorted(final(files)@),
        (r is None) == !spec_init_table_fits(old(files)@, block_max_offsets@, max_decomp_block_size, need_hashes),
        r matches Some(x) ==> spec_init_outcome(old(files)@, final(files)@, block_max_offsets@, chunk_size, max_decomp_block_size, need_hashes, x),
{
    let ghost old_files = files@;
    let max_offset = max_block_offset(block_max_offsets, max_decomp_block_size);
    let (largest_file_size, _) = file_size_facts(files, chunk_size);
    let packed = StringPool::pack_v0(files);
    let ghost sorted = files@;
    proof {
        lemma_file_facts_rearranged(old_files, sorted, chunk_size);
        assert forall|s: Seq<T>|
            #![trigger paths_sorted(s), s.to_multiset()]
            s.to_multiset() == sorted.to_multiset() && paths_sorted(s) implies spec_packed_v0_pool(s) == spec_packed_v0_pool(sorted) by {
            lemma_sorted_paths_unique(s, sorted);
        }
        sorted.to_multiset_ensures();
        old_files.to_multiset_ensures();
        assert(sorted.len() == old_files.len());
    }
    if let Ok(pool) = &packed {
        let format = determine_optimal_toc_format(
            pool.len() as u32,
            max_offset,
            block_max_offsets.len() as u32,
            files.len() as u32,
            need_hashes,
            largest_file_size,
        );
        if format != ToCFormat::Error
            && toc_size_u64(format, pool.len() as u32, block_max_offsets.len() as u32, files.len() as u32) > u32::MAX as u64 {
            proof {
                assert(spec_packed_v0_pool(sorted) == Some(pool@));
                assert(!spec_table_fits(pool@.len(), max_offset, block_max_offsets@.len(), old_files.len(), need_hashes, largest_file_size));
            }
            return None;
        }
    }
    proof {
        assert(spec_init_table_fits(files@, block_max_offsets@, max_decomp_block_size, need_hashes));
    }
    Some(init_toc_creation(files, block_max_offsets, chunk_size, max_decomp_block_size, need_hashes))
}

/// Starts writing a v2 table of contents: finds the largest file, whether any file is
/// larger than a chunk and the largest decompressed offset of any block, packs the string
/// pool (sorting the files by path, in place), then picks the format and calculates the
/// table's size (see [`builder_info_from_pool`]).
///
/// `files` holds the files of all blocks; `block_max_offsets` holds, for each block, the
/// largest decompressed offset in it.
///
/// # Errors
/// * `FailedToCreateStringPool` when the string pool cannot be packed.
/// * `NoSuitableTocFormat` when no format can hold the counts.
pub fn init_toc_creation<T: HasFileSize + HasRelativePath>(
    files: &mut [T],
    block_max_offsets: &[u32],
    chunk_size: u32,
    max_decomp_block_size: u32,
    need_hashes: bool,
) -> (r: Result<BuilderInfo, InitError>)
    requires
        old(files)@.len() <= u32::MAX,
        block_max_offsets@.len() <= u32::MAX,
        spec_init_table_fits(old(files)@, block_max_offsets@, max_decomp_block_size, need_hashes),
        spec_offset_bits_in_range(spec_max_block_offset(block_max_offsets@, max_decomp_block_size), block_max_offsets@.len(), old(files)@.len()),
    ensures
        final(files)@.to_multiset() == old(files)@.to_multiset(),
        paths_sorted(final(files)@),
        spec_init_outcome(old(files)@, final(files)@, block_max_offsets@, chunk_size, max_decomp_block_size, need_hashes, r),
{
    let max_offset = max_block_offset(block_max_offsets, max_decomp_block_size);
    let (largest_file_size, can_create_chunks) = file_size_facts(files, chunk_size);
    let ghost old_files = files@;

    let packed = StringPool::pack_v0(files);
    let string_pool = match packed {
        Ok(p) => p,
        Err(e) => {
            return Err(InitError::FailedToCreateStringPool(e));
        },
    };
    proof {
        files@.to_multiset_ensures();
        old_files.to_multiset_ensures();
        assert(files@.len() == old_files.len());
        assert(string_pool@.len() <= spec_max_pool_size());
        assert(paths_sorted(files@));
        assert(spec_packed_v0_pool(files@) == Some(string_pool@));
    }
    let block_count = block_max_offsets.len();
    let file_count = files.len();
    let r = builder_info_from_pool(string_pool, largest_file_size, can_create_chunks, max_offset, block_count, file_count, need_hashes);
    r
}

} // verus!
