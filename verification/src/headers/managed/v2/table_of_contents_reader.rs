use crate::api::enums::compression_preference::{spec_compression_from_code, CompressionPreference};
use crate::headers::enums::table_of_contents_version::TableOfContentsVersion;
use crate::headers::managed::block_size::BlockSize;
use crate::headers::managed::file_entry::FileEntry;
use crate::headers::managed::table_of_contents::{DeserializeError, TableOfContents};
use crate::headers::parser::string_pool::{
    all_utf8, lemma_string_pool_round_trip, no_zero_bytes, spec_pack_outcome, spec_unpack_outcome, StringPool,
};
use crate::headers::parser::string_pool_common::StringPoolFormat;
use crate::headers::raw::toc::v2::fef64::fileentry8::{
    counts_valid, spec_entry8_to_file_entry, FileEntry16, FileEntry8,
};
use crate::headers::raw::toc::v2::fef64::fileentrycommon::ItemCounts;
use crate::headers::raw::toc::v2::fef64::toc_header::Fef64TocHeader;
use crate::headers::raw::toc::v2::format_selector::{
    lemma_optimal_toc_format_fits, spec_optimal_toc_format, ToCFormat,
};
use crate::headers::raw::toc::v2::native_v2_toc_block_entry::NativeV2TocBlockEntry;
use crate::headers::raw::toc::v2::presets::preset0_fileentry::{read_p0_entry, spec_read_p0_entry};
use crate::headers::raw::toc::v2::presets::preset0_header::Preset0TocHeader;
use crate::headers::raw::toc::v2::presets::preset1_fileentry::{read_p1_entry, spec_read_p1_entry};
use crate::headers::raw::toc::v2::presets::preset2_fileentry::{read_p2_entry, spec_read_p2_entry};
use crate::headers::raw::toc::v2::presets::preset3_fileentry::{read_p3_entry, spec_read_p3_entry};
use crate::headers::raw::toc::v2::presets::preset3_fileentry_nohash::{
    read_p3nohash_entry, spec_read_p3nohash_entry,
};
use crate::headers::raw::toc::v2::presets::preset3_header::Preset3TocHeader;
use crate::utilities::bits::{field_get64, get_bits64, get_var_field64};
use crate::utilities::bytes::{read_u32_le, read_u64_at, read_u64_le};
use crate::headers::managed::v2::table_of_contents_builder::{
    spec_fef64_counts, spec_fef64_needs_extra_8bytes, spec_fef64_writable, spec_item_counts_word,
    spec_serialize_v2_outcome, spec_v2_blocks_bytes, spec_v2_entries_bytes, spec_v2_entry_bytes,
    spec_toc_size, spec_v2_entry_size, spec_v2_header_bytes, spec_v2_table_bytes,
};
use crate::headers::raw::toc::v2::fef64::fileentry8::{lemma_entry8_fields, spec_entry8_word, values_fit};
use crate::headers::raw::toc::v2::fef64::toc_header::{lemma_fef64_header_fields, spec_fef64_header_word};
use crate::headers::raw::toc::v2::native_v2_toc_block_entry::{lemma_v2_block_entry_fields, spec_v2_block_entry_word};
use crate::headers::raw::toc::v2::presets::offset_index_path_tuple_p0_p1_p2::{lemma_common_tuple_fields, spec_common_tuple_word};
use crate::headers::raw::toc::v2::presets::preset0_header::{lemma_preset0_header_fields, spec_preset0_header_word};
use crate::headers::raw::toc::v2::presets::preset3_header::{lemma_preset3_header_fields, spec_preset3_header_word};
use crate::headers::raw::toc::v2::presets::preset3_fileentry_nohash::{lemma_p3_index_word_fields, lemma_p3_index_word_halves, spec_p3_index_word};
use crate::utilities::bit_count::spec_bits_needed;
use crate::utilities::bits::{field_set64, lemma_field_get_low64, lemma_field_get_set_other64, lemma_field_get_set_same64, lemma_fits_bits64_needed, lemma_get_bits_low_mod64, lemma_upper_half_clear64};
use crate::utilities::bytes::{le_bytes32, le_bytes64, lemma_read_u16_halves, lemma_read_u32_where, lemma_read_u64_where, read_u16_le};
use vstd::prelude::*;
use vstd::slice::slice_subrange;

verus! {

/// Bytes per file entry when reading a format; FEF64 entries carry a hash only when the
/// header says so.
pub open spec fn spec_v2_read_entry_size(format: ToCFormat, has_hash: bool) -> int {
    match format {
        ToCFormat::Preset3NoHash => 8,
        ToCFormat::FEF64 => if has_hash { 16 } else { 8 },
        ToCFormat::Preset1 => 12,
        ToCFormat::Preset3 => 16,
        ToCFormat::Preset0 => 20,
        ToCFormat::Preset2 => 24,
        ToCFormat::Error => 0,
    }
}

/// The managed entry read from the entry of a format at `pos` of `d`.
pub open spec fn spec_read_v2_entry(d: Seq<u8>, pos: int, format: ToCFormat, has_hash: bool, c: ItemCounts) -> FileEntry {
    match format {
        ToCFormat::FEF64 => if has_hash {
            spec_entry8_to_file_entry(read_u64_le(d, pos + 8), c, read_u64_le(d, pos))
        } else {
            spec_entry8_to_file_entry(read_u64_le(d, pos), c, 0)
        },
        ToCFormat::Preset0 => spec_read_p0_entry(d, pos),
        ToCFormat::Preset1 => spec_read_p1_entry(d, pos),
        ToCFormat::Preset2 => spec_read_p2_entry(d, pos),
        ToCFormat::Preset3 => spec_read_p3_entry(d, pos),
        _ => spec_read_p3nohash_entry(d, pos),
    }
}

/// What the header of a v2 table declares: the entry format, whether FEF64 entries
/// carry hashes, the FEF64 field widths, the header's size in bytes, the string pool
/// size, the block count and the file count; or the error met reading it.
pub open spec fn spec_parse_v2_header(d: Seq<u8>) -> Result<(ToCFormat, bool, ItemCounts, int, int, int, int), DeserializeError> {
    if d.len() < 8 {
        Err(DeserializeError::InsufficientData)
    } else {
        let w = read_u64_le(d, 0);
        if get_bits64(w, 63, 1) == 1 {
            let pb = get_bits64(w, 57, 5);
            let fb = get_bits64(w, 52, 5);
            let bb = get_bits64(w, 47, 5);
            let ob = get_bits64(w, 42, 5);
            let c = ItemCounts { block_count_bits: bb as u8, file_count_bits: fb as u8, decompressed_block_offset_bits: ob as u8 };
            if pb + bb + fb > 64 || ob + fb + bb >= 64 {
                Err(DeserializeError::InvalidHeader)
            } else if pb + bb + fb > 42 && d.len() < 16 {
                Err(DeserializeError::InsufficientData)
            } else {
                let extended = pb + bb + fb > 42;
                let ic = if extended { read_u64_le(d, 8) } else { get_bits64(w, 0, 42) };
                Ok((
                    ToCFormat::FEF64,
                    get_bits64(w, 62, 1) == 1,
                    c,
                    if extended { 16int } else { 8int },
                    field_get64(ic, (fb + bb) as u64, pb) as int,
                    field_get64(ic, fb, bb) as int,
                    field_get64(ic, 0, fb) as int,
                ))
            }
        } else {
            let preset = get_bits64(w, 61, 2);
            let c = ItemCounts { block_count_bits: 0, file_count_bits: 0, decompressed_block_offset_bits: 0 };
            if preset < 3 {
                let format = if preset == 0 { ToCFormat::Preset0 } else if preset == 1 { ToCFormat::Preset1 } else { ToCFormat::Preset2 };
                Ok((format, false, c, 8int, get_bits64(w, 40, 21) as int, get_bits64(w, 18, 22) as int, get_bits64(w, 0, 18) as int))
            } else {
                let format = if get_bits64(w, 60, 1) == 1 { ToCFormat::Preset3 } else { ToCFormat::Preset3NoHash };
                Ok((format, false, c, 8int, get_bits64(w, 40, 20) as int, get_bits64(w, 24, 16) as int, get_bits64(w, 8, 16) as int))
            }
        }
    }
}

/// The word of the `k`-th block entry of a table whose block entries start at `pos`.
pub open spec fn spec_v2_block_word(d: Seq<u8>, pos: int, k: int) -> u64 {
    read_u32_le(d, pos + 4 * k) as u64
}

/// The block sizes, block compressions and string pool bytes of a table whose block
/// entries start at `blocks_pos`; or the error met reading them.
pub open spec fn spec_parse_v2_after_entries(d: Seq<u8>, blocks_pos: int, block_count: int, pool_size: int) -> Result<
    (Seq<BlockSize>, Seq<CompressionPreference>, Seq<u8>),
    DeserializeError,
> {
    let pool_pos = blocks_pos + 4 * block_count;
    if d.len() < pool_pos + pool_size {
        Err(DeserializeError::InsufficientData)
    } else if exists|k: int| 0 <= k < block_count && #[trigger] spec_compression_from_code(get_bits64(spec_v2_block_word(d, blocks_pos, k), 0, 2) as u32) is None {
        Err(DeserializeError::InvalidBlockCompression)
    } else {
        Ok((
            Seq::new(block_count as nat, |k: int| BlockSize { compressed_size: get_bits64(spec_v2_block_word(d, blocks_pos, k), 2, 30) as u32 }),
            Seq::new(block_count as nat, |k: int| spec_compression_from_code(get_bits64(spec_v2_block_word(d, blocks_pos, k), 0, 2) as u32).unwrap()),
            d.subrange(pool_pos, pool_pos + pool_size),
        ))
    }
}

/// The parts of a v2 table of contents whose file entries start at `pos`: its file
/// entries, block sizes, block compressions, the bytes of its string pool and its file
/// count; or the error met reading them.
pub open spec fn spec_parse_v2_body(
    d: Seq<u8>,
    pos: int,
    format: ToCFormat,
    has_hash: bool,
    c: ItemCounts,
    pool_size: int,
    block_count: int,
    file_count: int,
) -> Result<(Seq<FileEntry>, Seq<BlockSize>, Seq<CompressionPreference>, Seq<u8>, nat), DeserializeError> {
    let es = spec_v2_read_entry_size(format, has_hash);
    let blocks_pos = pos + file_count * es;
    if d.len() < blocks_pos {
        Err(DeserializeError::InsufficientData)
    } else {
        match spec_parse_v2_after_entries(d, blocks_pos, block_count, pool_size) {
            Err(e) => Err(e),
            Ok((blocks, compressions, pool)) => Ok((
                Seq::new(file_count as nat, |i: int| spec_read_v2_entry(d, pos + i * es, format, has_hash, c)),
                blocks,
                compressions,
                pool,
                file_count as nat,
            )),
        }
    }
}

/// The parts of a v2 table of contents: its file entries, block sizes, block
/// compressions, the bytes of its string pool and its file count; or the error met
/// reading them.
pub open spec fn spec_parse_toc_v2(d: Seq<u8>) -> Result<(Seq<FileEntry>, Seq<BlockSize>, Seq<CompressionPreference>, Seq<u8>, nat), DeserializeError> {
    match spec_parse_v2_header(d) {
        Err(e) => Err(e),
        Ok((format, has_hash, c, hs, pool_size, block_count, file_count)) => spec_parse_v2_body(d, hs, format, has_hash, c, pool_size, block_count, file_count),
    }
}

/// What deserializing from parts gives: the error met reading them, or the parts (in a
/// table of version [`TableOfContentsVersion::V2`]) with the string pool unpacked (as [`StringPool::unpack_v0`] does), or the error of
/// unpacking the pool.
pub open spec fn spec_toc_from_parts_outcome(
    parts: Result<(Seq<FileEntry>, Seq<BlockSize>, Seq<CompressionPreference>, Seq<u8>, nat), DeserializeError>,
    r: Result<TableOfContents, DeserializeError>,
) -> bool {
    match parts {
        Err(e) => r == Err::<TableOfContents, DeserializeError>(e),
        Ok((entries, blocks, compressions, pool, n)) => match r {
            Ok(toc) => {
                &&& toc.version == TableOfContentsVersion::V2
                &&& toc.entries@ == entries
                &&& toc.blocks@ == blocks
                &&& toc.block_compressions@ == compressions
                &&& spec_unpack_outcome(StringPoolFormat::V0, pool, n as usize, Ok(toc.pool))
            },
            Err(DeserializeError::StringPoolUnpackError(e)) => spec_unpack_outcome(StringPoolFormat::V0, pool, n as usize, Err(e)),
            Err(_) => false,
        },
    }
}

/// What deserializing a v2 table of contents gives.
pub open spec fn spec_deserialize_v2_outcome(d: Seq<u8>, r: Result<TableOfContents, DeserializeError>) -> bool {
    spec_toc_from_parts_outcome(spec_parse_toc_v2(d), r)
}

/// Reads the file entry of a format at `pos`.
fn read_v2_entry(data: &[u8], pos: usize, format: ToCFormat, has_hash: bool, c: ItemCounts) -> (r: FileEntry)
    requires
        format != ToCFormat::Error,
        format == ToCFormat::FEF64 ==> counts_valid(c),
        pos + spec_v2_read_entry_size(format, has_hash) <= data@.len(),
    ensures
        r == spec_read_v2_entry(data@, pos as int, format, has_hash, c),
{
    match format {
        ToCFormat::FEF64 => if has_hash {
            FileEntry16::from_reader(data, pos).to_file_entry(c)
        } else {
            FileEntry8::from_reader(data, pos).to_file_entry(c)
        },
        ToCFormat::Preset0 => read_p0_entry(data, pos),
        ToCFormat::Preset1 => read_p1_entry(data, pos),
        ToCFormat::Preset2 => read_p2_entry(data, pos),
        ToCFormat::Preset3 => read_p3_entry(data, pos),
        _ => read_p3nohash_entry(data, pos),
    }
}

/// Reads `block_count` block entries starting at `pos`.
///
/// # Errors
/// * `InvalidBlockCompression` when a block declares a compression that does not exist.
fn read_blocks_unrolled(data: &[u8], pos: usize, block_count: usize) -> (r: Result<(Vec<BlockSize>, Vec<CompressionPreference>), DeserializeError>)
    requires
        pos + 4 * block_count <= data@.len(),
    ensures
        match r {
            Ok((blocks, compressions)) => {
                &&& !(exists|k: int| 0 <= k < block_count && #[trigger] spec_compression_from_code(get_bits64(spec_v2_block_word(data@, pos as int, k), 0, 2) as u32) is None)
                &&& blocks@ == Seq::new(block_count as nat, |k: int| BlockSize { compressed_size: get_bits64(spec_v2_block_word(data@, pos as int, k), 2, 30) as u32 })
                &&& compressions@ == Seq::new(block_count as nat, |k: int| spec_compression_from_code(get_bits64(spec_v2_block_word(data@, pos as int, k), 0, 2) as u32).unwrap())
            },
            Err(e) => {
                &&& e == DeserializeError::InvalidBlockCompression
                &&& exists|k: int| 0 <= k < block_count && #[trigger] spec_compression_from_code(get_bits64(spec_v2_block_word(data@, pos as int, k), 0, 2) as u32) is None
            },
        },
{
    let _len = data.len();
    let mut blocks: Vec<BlockSize> = Vec::new();
    let mut compressions: Vec<CompressionPreference> = Vec::new();
    let mut k: usize = 0;
    while k < block_count
        invariant
            k <= block_count,
            data@.len() <= usize::MAX,
            pos + 4 * block_count <= data@.len(),
            blocks@ == Seq::new(k as nat, |j: int| BlockSize { compressed_size: get_bits64(spec_v2_block_word(data@, pos as int, j), 2, 30) as u32 }),
            compressions@ == Seq::new(k as nat, |j: int| spec_compression_from_code(get_bits64(spec_v2_block_word(data@, pos as int, j), 0, 2) as u32).unwrap()),
            forall|j: int| 0 <= j < k ==> #[trigger] spec_compression_from_code(get_bits64(spec_v2_block_word(data@, pos as int, j), 0, 2) as u32) is Some,
        decreases block_count - k,
    {
        let entry = NativeV2TocBlockEntry::from_reader(data, pos + 4 * k);
        let compression = match entry.try_compression() {
            Some(c) => c,
            None => {
                assert(spec_compression_from_code(get_bits64(spec_v2_block_word(data@, pos as int, k as int), 0, 2) as u32) is None);
                return Err(DeserializeError::InvalidBlockCompression);
            },
        };
        blocks.push(BlockSize::new(entry.compressed_block_size()));
        compressions.push(compression);
        proof {
            assert(blocks@ =~= Seq::new((k + 1) as nat, |j: int| BlockSize { compressed_size: get_bits64(spec_v2_block_word(data@, pos as int, j), 2, 30) as u32 }));
            assert(compressions@ =~= Seq::new((k + 1) as nat, |j: int| spec_compression_from_code(get_bits64(spec_v2_block_word(data@, pos as int, j), 0, 2) as u32).unwrap()));
        }
        k = k + 1;
    }
    Ok((blocks, compressions))
}

/// Reads the block entries that start at `blocks_pos` and the string pool after them, and
/// assembles the table of contents with the already read `entries`.
///
/// # Errors
/// * `InsufficientData` when the data ends before the string pool does.
/// * `InvalidBlockCompression` when a block declares a compression that does not exist.
/// * `StringPoolUnpackError` when the string pool does not unpack.
fn read_stuff_after_entries_and_return_toc(
    data: &[u8],
    blocks_pos: usize,
    block_count: u32,
    pool_size: u32,
    file_count: u32,
    entries: Vec<FileEntry>,
) -> (r: Result<TableOfContents, DeserializeError>)
    requires
        blocks_pos <= data@.len(),
    ensures
        spec_toc_from_parts_outcome(
            match spec_parse_v2_after_entries(data@, blocks_pos as int, block_count as int, pool_size as int) {
                Err(e) => Err(e),
                Ok((blocks, compressions, pool)) => Ok((entries@, blocks, compressions, pool, file_count as nat)),
            },
            r,
        ),
{
    let remaining = (data.len() - blocks_pos) as u64;
    let needed = 4 * (block_count as u64) + pool_size as u64;
    if remaining < needed {
        return Err(DeserializeError::InsufficientData);
    }
    let pool_pos = blocks_pos + 4 * (block_count as usize);
    let (blocks, compressions) = match read_blocks_unrolled(data, blocks_pos, block_count as usize) {
        Ok(x) => x,
        Err(e) => {
            return Err(e);
        },
    };
    let pool_data = slice_subrange(data, pool_pos, pool_pos + pool_size as usize);
    match StringPool::unpack_v0(pool_data, file_count as usize) {
        Ok(pool) => Ok(TableOfContents { block_compressions: compressions, blocks, entries, pool, version: TableOfContentsVersion::V2 }),
        Err(e) => Err(DeserializeError::StringPoolUnpackError(e)),
    }
}

/// Reads the file entries of a table in one of the layouts, starting at `pos`, and then
/// the blocks and string pool after them.
fn read_entries_and_rest(
    data: &[u8],
    pos: usize,
    format: ToCFormat,
    has_hash: bool,
    c: ItemCounts,
    pool_size: u32,
    block_count: u32,
    file_count: u32,
) -> (r: Result<TableOfContents, DeserializeError>)
    requires
        format != ToCFormat::Error,
        format == ToCFormat::FEF64 ==> counts_valid(c),
        pos <= data@.len(),
    ensures
        spec_toc_from_parts_outcome(spec_parse_v2_body(data@, pos as int, format, has_hash, c, pool_size as int, block_count as int, file_count as int), r),
{
    let es: usize = match format {
        ToCFormat::Preset3NoHash => 8,
        ToCFormat::FEF64 => if has_hash { 16 } else { 8 },
        ToCFormat::Preset1 => 12,
        ToCFormat::Preset3 => 16,
        ToCFormat::Preset0 => 20,
        ToCFormat::Preset2 => 24,
        ToCFormat::Error => 0,
    };
    let remaining = (data.len() - pos) as u64;
    if remaining < (file_count as u64) * (es as u64) {
        return Err(DeserializeError::InsufficientData);
    }
    let n = file_count as usize;
    let blocks_pos = pos + n * es;
    let mut entries: Vec<FileEntry> = Vec::new();
    let mut i: usize = 0;
    while i < n
        invariant
            i <= n,
            n == file_count,
            format != ToCFormat::Error,
            format == ToCFormat::FEF64 ==> counts_valid(c),
            es == spec_v2_read_entry_size(format, has_hash),
            blocks_pos == pos + n * es,
            blocks_pos <= data@.len(),
            entries@ == Seq::new(i as nat, |j: int| spec_read_v2_entry(data@, pos + j * es, format, has_hash, c)),
        decreases n - i,
    {
        proof {
            assert(pos + i * es + es <= blocks_pos) by (nonlinear_arith)
                requires i < n, blocks_pos == pos + n * es;
        }
        let e = read_v2_entry(data, pos + i * es, format, has_hash, c);
        entries.push(e);
        proof {
            assert(entries@ =~= Seq::new((i + 1) as nat, |j: int| spec_read_v2_entry(data@, pos + j * es, format, has_hash, c)));
        }
        i = i + 1;
    }
    read_stuff_after_entries_and_return_toc(data, blocks_pos, block_count, pool_size, file_count, entries)
}

/// Deserializes the file entries of a v2 table in one of the preset layouts (as opposed
/// to the Flexible Entry Format), starting at `pos`, then its blocks and string pool.
/// `preset` is the preset number, `has_hash` tells the two layouts of Preset 3 apart.
///
/// # Errors
/// As [`deserialize_toc_v2`], for the part of the table after its header.
pub fn deserialize_v2xx_preset_entries(
    data: &[u8],
    pos: usize,
    pool_size: u32,
    block_count: u32,
    file_count: u32,
    preset: u8,
    has_hash: bool,
) -> (r: Result<TableOfContents, DeserializeError>)
    requires
        pos <= data@.len(),
        preset <= 3,
    ensures
        ({
            let format = if preset == 0 {
                ToCFormat::Preset0
            } else if preset == 1 {
                ToCFormat::Preset1
            } else if preset == 2 {
                ToCFormat::Preset2
            } else if has_hash {
                ToCFormat::Preset3
            } else {
                ToCFormat::Preset3NoHash
            };
            spec_toc_from_parts_outcome(
                spec_parse_v2_body(data@, pos as int, format, false, ItemCounts { block_count_bits: 0, file_count_bits: 0, decompressed_block_offset_bits: 0 }, pool_size as int, block_count as int, file_count as int),
                r,
            )
        }),
{
    let format = if preset == 0 {
        ToCFormat::Preset0
    } else if preset == 1 {
        ToCFormat::Preset1
    } else if preset == 2 {
        ToCFormat::Preset2
    } else if has_hash {
        ToCFormat::Preset3
    } else {
        ToCFormat::Preset3NoHash
    };
    read_entries_and_rest(data, pos, format, false, ItemCounts::new(0, 0, 0), pool_size, block_count, file_count)
}

/// Deserializes the file entries of a v2 table in the Flexible Entry Format, starting at
/// `pos`, then its blocks and string pool; `counts` gives the widths of the entry fields
/// and `has_hash` whether each entry starts with a hash.
///
/// # Errors
/// As [`deserialize_toc_v2`], for the part of the table after its header.
pub fn deserialize_v2xx_fef64_entries(
    data: &[u8],
    pos: usize,
    pool_size: u32,
    block_count: u32,
    file_count: u32,
    counts: ItemCounts,
    has_hash: bool,
) -> (r: Result<TableOfContents, DeserializeError>)
    requires
        pos <= data@.len(),
        counts_valid(counts),
    ensures
        spec_toc_from_parts_outcome(
            spec_parse_v2_body(data@, pos as int, ToCFormat::FEF64, has_hash, counts, pool_size as int, block_count as int, file_count as int),
            r,
        ),
{
    read_entries_and_rest(data, pos, ToCFormat::FEF64, has_hash, counts, pool_size, block_count, file_count)
}

/// Deserializes a v2 table of contents (a preset layout or the Flexible Entry Format)
/// from `data`, which starts with the table's header and may be longer than the table.
///
/// # Errors
/// * `InsufficientData` when the data is shorter than the table it declares.
/// * `InvalidHeader` when a FEF64 header declares field widths that do not fit 64 bits.
/// * `InvalidBlockCompression` when a block declares a compression that does not exist.
/// * `StringPoolUnpackError` when the string pool does not unpack.
pub fn deserialize_toc_v2(data: &[u8]) -> (r: Result<TableOfContents, DeserializeError>)
    ensures
        spec_deserialize_v2_outcome(data@, r),
{
    if data.len() < 8 {
        return Err(DeserializeError::InsufficientData);
    }
    let w = read_u64_at(data, 0);
    let toc_header = Preset3TocHeader(w);
    let preset = toc_header.get_preset();
    let has_hash = toc_header.get_has_hash();
    proof {
        vstd::arithmetic::power2::lemma2_to64();
        crate::utilities::bits::lemma_get_bits_bound64(w, 61, 2);
        crate::utilities::bits::lemma_mask64_is(2, 3);
    }
    if toc_header.get_is_flexible_format() {
        let header = Fef64TocHeader(w);
        let pb = header.get_string_pool_size_bits() as u64;
        let fb = header.get_file_count_bits() as u64;
        let bb = header.get_block_count_bits() as u64;
        let ob = header.get_decompressed_block_offset_bits() as u64;
        proof {
            vstd::arithmetic::power2::lemma2_to64();
            crate::utilities::bits::lemma_get_bits_bound64(w, 57, 5);
            crate::utilities::bits::lemma_get_bits_bound64(w, 52, 5);
            crate::utilities::bits::lemma_get_bits_bound64(w, 47, 5);
            crate::utilities::bits::lemma_get_bits_bound64(w, 42, 5);
            crate::utilities::bits::lemma_mask64_is(5, 31);
        }
        if pb + bb + fb > 64 || ob + fb + bb >= 64 {
            return Err(DeserializeError::InvalidHeader);
        }
        let extended = pb + bb + fb > 42;
        if extended && data.len() < 16 {
            return Err(DeserializeError::InsufficientData);
        }
        let ic = if extended { read_u64_at(data, 8) } else { header.get_padding_or_item_counts() };
        let file_count = get_var_field64(ic, 0, fb);
        let block_count = get_var_field64(ic, fb, bb);
        let pool_size = get_var_field64(ic, fb + bb, pb);
        proof {
            crate::utilities::bits::lemma_fits_u32(file_count, fb);
            crate::utilities::bits::lemma_fits_u32(block_count, bb);
            crate::utilities::bits::lemma_fits_u32(pool_size, pb);
        }
        let counts = ItemCounts::new(bb as u8, fb as u8, ob as u8);
        let hs: usize = if extended { 16 } else { 8 };
        return deserialize_v2xx_fef64_entries(
            data,
            hs,
            pool_size as u32,
            block_count as u32,
            file_count as u32,
            counts,
            header.get_has_hash(),
        );
    } else if preset < 3 {
        let header = Preset0TocHeader(w);
        return deserialize_v2xx_preset_entries(
            data,
            8,
            header.get_string_pool_size(),
            header.get_block_count(),
            header.get_file_count(),
            preset,
            false,
        );
    } else {
        return deserialize_v2xx_preset_entries(
            data,
            8,
            toc_header.get_string_pool_size(),
            toc_header.get_block_count() as u32,
            toc_header.get_file_count() as u32,
            preset,
            has_hash,
        );
    }
}

/// Whether the values of an entry fit the fields of a format.
pub open spec fn spec_v2_entry_fits(format: ToCFormat, c: ItemCounts, e: FileEntry) -> bool {
    match format {
        ToCFormat::FEF64 => values_fit(c, e.decompressed_size, e.decompressed_block_offset as u64, e.file_path_index as u64, e.first_block_index as u64),
        ToCFormat::Preset0 => e.decompressed_size <= u32::MAX && e.decompressed_block_offset < 0x100_0000 && e.file_path_index < 0x4_0000 && e.first_block_index < 0x40_0000,
        ToCFormat::Preset1 => e.decompressed_size <= u32::MAX && e.decompressed_block_offset < 0x100_0000 && e.file_path_index < 0x4_0000 && e.first_block_index < 0x40_0000,
        ToCFormat::Preset2 => e.decompressed_block_offset < 0x100_0000 && e.file_path_index < 0x4_0000 && e.first_block_index < 0x40_0000,
        ToCFormat::Preset3 => e.decompressed_size <= u32::MAX && e.file_path_index <= 0xFFFF && e.first_block_index <= 0xFFFF,
        ToCFormat::Preset3NoHash => e.decompressed_size <= u32::MAX && e.file_path_index <= 0xFFFF && e.first_block_index <= 0xFFFF,
        ToCFormat::Error => false,
    }
}

/// What a format keeps of an entry: Preset 1 and Preset 3 without hashes drop the hash,
/// both Preset 3 layouts drop the offset inside the block.
pub open spec fn spec_stored_entry(format: ToCFormat, e: FileEntry) -> FileEntry {
    FileEntry {
        hash: if format == ToCFormat::Preset1 || format == ToCFormat::Preset3NoHash { 0 } else { e.hash },
        decompressed_size: e.decompressed_size,
        decompressed_block_offset: if format == ToCFormat::Preset3 || format == ToCFormat::Preset3NoHash { 0 } else { e.decompressed_block_offset },
        file_path_index: e.file_path_index,
        first_block_index: e.first_block_index,
    }
}

/// Whether the string pool size, block count, file count and largest offset fit the
/// header of a format.
pub open spec fn spec_v2_counts_fit(format: ToCFormat, pool_len: nat, block_count: nat, file_count: nat, max_decomp_block_offset: u32) -> bool {
    match format {
        ToCFormat::FEF64 => spec_bits_needed(pool_len) <= 31 && spec_bits_needed(block_count) <= 31
            && spec_bits_needed(file_count) <= 31 && spec_bits_needed(max_decomp_block_offset as nat) <= 31,
        ToCFormat::Preset0 => pool_len < 0x20_0000 && block_count < 0x40_0000 && file_count < 0x4_0000,
        ToCFormat::Preset1 => pool_len < 0x20_0000 && block_count < 0x40_0000 && file_count < 0x4_0000,
        ToCFormat::Preset2 => pool_len < 0x20_0000 && block_count < 0x40_0000 && file_count < 0x4_0000,
        ToCFormat::Preset3 => pool_len < 0x10_0000 && block_count <= 0xFFFF && file_count <= 0xFFFF,
        ToCFormat::Preset3NoHash => pool_len < 0x10_0000 && block_count <= 0xFFFF && file_count <= 0xFFFF,
        ToCFormat::Error => false,
    }
}

/// Whether a table's parts fit its format: a compression and a 30 bit size for every
/// block, counts within the header's fields, and every entry's values within their
/// fields.
pub open spec fn spec_v2_table_fits(
    compressions: Seq<CompressionPreference>,
    blocks: Seq<BlockSize>,
    entries: Seq<FileEntry>,
    format: ToCFormat,
    max_decomp_block_offset: u32,
    pool: Seq<u8>,
) -> bool {
    &&& format != ToCFormat::Error
    &&& compressions.len() == blocks.len()
    &&& forall|k: int| 0 <= k < blocks.len() ==> #[trigger] compressions[k] != CompressionPreference::NoPreference
    &&& forall|k: int| 0 <= k < blocks.len() ==> #[trigger] blocks[k].compressed_size < 0x4000_0000
    &&& spec_v2_counts_fit(format, pool.len(), blocks.len(), entries.len(), max_decomp_block_offset)
    &&& format == ToCFormat::FEF64 ==> spec_fef64_writable(entries, blocks.len(), pool.len(), max_decomp_block_offset)
    &&& forall|i: int| 0 <= i < entries.len() ==> #[trigger] spec_v2_entry_fits(format, spec_fef64_counts(blocks.len(), entries.len(), max_decomp_block_offset), entries[i])
}

/// The serialized entries take the entry size per entry.
proof fn lemma_v2_entries_bytes_len(entries: Seq<FileEntry>, format: ToCFormat, c: ItemCounts)
    ensures
        spec_v2_entries_bytes(entries, format, c).len() == entries.len() * spec_v2_entry_size(format),
    decreases entries.len(),
{
    if entries.len() > 0 {
        lemma_v2_entries_bytes_len(entries.drop_last(), format, c);
        let es = spec_v2_entry_size(format);
        assert((entries.len() - 1) * es + es == entries.len() * es) by (nonlinear_arith);
    }
}

/// Entry `i` lies at its place among the serialized entries.
proof fn lemma_v2_entries_bytes_at(entries: Seq<FileEntry>, format: ToCFormat, c: ItemCounts, i: int)
    requires
        0 <= i < entries.len(),
    ensures
        spec_v2_entries_bytes(entries, format, c).subrange(i * spec_v2_entry_size(format), i * spec_v2_entry_size(format) + spec_v2_entry_size(format))
            == spec_v2_entry_bytes(format, c, entries[i]),
    decreases entries.len(),
{
    let es = spec_v2_entry_size(format) as int;
    let dl = entries.drop_last();
    lemma_v2_entries_bytes_len(dl, format, c);
    if i == entries.len() - 1 {
        assert(spec_v2_entries_bytes(entries, format, c).subrange(i * es, i * es + es) =~= spec_v2_entry_bytes(format, c, entries[i]));
    } else {
        lemma_v2_entries_bytes_at(dl, format, c, i);
        assert(i * es + es <= dl.len() * es) by (nonlinear_arith)
            requires i < dl.len(), es >= 0;
        assert(spec_v2_entries_bytes(entries, format, c).subrange(i * es, i * es + es) =~= spec_v2_entries_bytes(dl, format, c).subrange(i * es, i * es + es));
    }
}

/// Reading an entry where it was serialized gives back what its format keeps of it.
proof fn lemma_read_v2_entry_back(d: Seq<u8>, pos: int, format: ToCFormat, has_hash: bool, c: ItemCounts, e: FileEntry)
    requires
        0 <= pos,
        pos + spec_v2_entry_size(format) <= d.len(),
        d.subrange(pos, pos + spec_v2_entry_size(format)) == spec_v2_entry_bytes(format, c, e),
        format == ToCFormat::FEF64 ==> counts_valid(c) && has_hash,
        spec_v2_entry_fits(format, c, e),
    ensures
        spec_read_v2_entry(d, pos, format, has_hash, c) == spec_stored_entry(format, e),
{
    let b = spec_v2_entry_bytes(format, c, e);
    match format {
        ToCFormat::FEF64 => {
            let w = spec_entry8_word(c, e.decompressed_size, e.decompressed_block_offset as u64, e.file_path_index as u64, e.first_block_index as u64);
            assert(b.subrange(0, 8) =~= le_bytes64(e.hash));
            assert(b.subrange(8, 16) =~= le_bytes64(w));
            assert(d.subrange(pos, pos + 8) =~= b.subrange(0, 8));
            assert(d.subrange(pos + 8, pos + 16) =~= b.subrange(8, 16));
            lemma_read_u64_where(d, pos, e.hash);
            lemma_read_u64_where(d, pos + 8, w);
            lemma_entry8_fields(c, e.decompressed_size, e.decompressed_block_offset as u64, e.file_path_index as u64, e.first_block_index as u64);
        },
        ToCFormat::Preset0 => {
            let t = spec_common_tuple_word(e.decompressed_block_offset, e.file_path_index, e.first_block_index);
            lemma_common_tuple_fields(e.decompressed_block_offset, e.file_path_index, e.first_block_index);
            assert(b.subrange(0, 8) =~= le_bytes64(e.hash));
            assert(b.subrange(8, 12) =~= le_bytes32(e.decompressed_size as u32));
            assert(b.subrange(12, 20) =~= le_bytes64(t));
            assert(d.subrange(pos, pos + 8) =~= b.subrange(0, 8));
            assert(d.subrange(pos + 8, pos + 12) =~= b.subrange(8, 12));
            assert(d.subrange(pos + 12, pos + 20) =~= b.subrange(12, 20));
            lemma_read_u64_where(d, pos, e.hash);
            lemma_read_u32_where(d, pos + 8, e.decompressed_size as u32);
            lemma_read_u64_where(d, pos + 12, t);
        },
        ToCFormat::Preset1 => {
            let t = spec_common_tuple_word(e.decompressed_block_offset, e.file_path_index, e.first_block_index);
            lemma_common_tuple_fields(e.decompressed_block_offset, e.file_path_index, e.first_block_index);
            assert(b.subrange(0, 4) =~= le_bytes32(e.decompressed_size as u32));
            assert(b.subrange(4, 12) =~= le_bytes64(t));
            assert(d.subrange(pos, pos + 4) =~= b.subrange(0, 4));
            assert(d.subrange(pos + 4, pos + 12) =~= b.subrange(4, 12));
            lemma_read_u32_where(d, pos, e.decompressed_size as u32);
            lemma_read_u64_where(d, pos + 4, t);
        },
        ToCFormat::Preset2 => {
            let t = spec_common_tuple_word(e.decompressed_block_offset, e.file_path_index, e.first_block_index);
            lemma_common_tuple_fields(e.decompressed_block_offset, e.file_path_index, e.first_block_index);
            assert(b.subrange(0, 8) =~= le_bytes64(e.hash));
            assert(b.subrange(8, 16) =~= le_bytes64(e.decompressed_size));
            assert(b.subrange(16, 24) =~= le_bytes64(t));
            assert(d.subrange(pos, pos + 8) =~= b.subrange(0, 8));
            assert(d.subrange(pos + 8, pos + 16) =~= b.subrange(8, 16));
            assert(d.subrange(pos + 16, pos + 24) =~= b.subrange(16, 24));
            lemma_read_u64_where(d, pos, e.hash);
            lemma_read_u64_where(d, pos + 8, e.decompressed_size);
            lemma_read_u64_where(d, pos + 16, t);
        },
        ToCFormat::Preset3 => {
            let iw = spec_p3_index_word(e.file_path_index as u16, e.first_block_index as u16);
            lemma_p3_index_word_fields(e.file_path_index as u16, e.first_block_index as u16);
            lemma_upper_half_clear64(iw);
            assert(b.subrange(0, 8) =~= le_bytes64(e.hash));
            assert(b.subrange(8, 12) =~= le_bytes32(e.decompressed_size as u32));
            assert(b.subrange(12, 16) =~= le_bytes32(iw as u32));
            assert(d.subrange(pos, pos + 8) =~= b.subrange(0, 8));
            assert(d.subrange(pos + 8, pos + 12) =~= b.subrange(8, 12));
            assert(d.subrange(pos + 12, pos + 16) =~= b.subrange(12, 16));
            lemma_read_u64_where(d, pos, e.hash);
            lemma_read_u32_where(d, pos + 8, e.decompressed_size as u32);
            lemma_read_u32_where(d, pos + 12, iw as u32);
        },
        ToCFormat::Preset3NoHash => {
            let iw = spec_p3_index_word(e.file_path_index as u16, e.first_block_index as u16);
            lemma_p3_index_word_fields(e.file_path_index as u16, e.first_block_index as u16);
            lemma_upper_half_clear64(iw);
            assert(b.subrange(0, 4) =~= le_bytes32(e.decompressed_size as u32));
            assert(b.subrange(4, 8) =~= le_bytes32(iw as u32));
            assert(d.subrange(pos, pos + 4) =~= b.subrange(0, 4));
            assert(d.subrange(pos + 4, pos + 8) =~= b.subrange(4, 8));
            lemma_read_u32_where(d, pos, e.decompressed_size as u32);
            lemma_read_u32_where(d, pos + 4, iw as u32);
        },
        ToCFormat::Error => {},
    }
}

/// The serialized blocks take four bytes per block.
proof fn lemma_v2_blocks_bytes_len(blocks: Seq<BlockSize>, compressions: Seq<CompressionPreference>)
    ensures
        spec_v2_blocks_bytes(blocks, compressions).len() == 4 * blocks.len(),
    decreases blocks.len(),
{
    if blocks.len() > 0 {
        lemma_v2_blocks_bytes_len(blocks.drop_last(), compressions);
    }
}

/// Block `k` lies at its place among the serialized blocks.
proof fn lemma_v2_blocks_bytes_at(blocks: Seq<BlockSize>, compressions: Seq<CompressionPreference>, k: int)
    requires
        0 <= k < blocks.len(),
    ensures
        spec_v2_blocks_bytes(blocks, compressions).subrange(4 * k, 4 * k + 4)
            == le_bytes32(spec_v2_block_entry_word(blocks[k].compressed_size, compressions[k]) as u32),
    decreases blocks.len(),
{
    let dl = blocks.drop_last();
    lemma_v2_blocks_bytes_len(dl, compressions);
    if k == blocks.len() - 1 {
        assert(spec_v2_blocks_bytes(blocks, compressions).subrange(4 * k, 4 * k + 4)
            =~= le_bytes32(spec_v2_block_entry_word(blocks[k].compressed_size, compressions[k]) as u32));
    } else {
        lemma_v2_blocks_bytes_at(dl, compressions, k);
        assert(spec_v2_blocks_bytes(blocks, compressions).subrange(4 * k, 4 * k + 4)
            =~= spec_v2_blocks_bytes(dl, compressions).subrange(4 * k, 4 * k + 4));
    }
}

/// Reading block entry `k` gives back its size and compression.
proof fn lemma_read_v2_block_at(d: Seq<u8>, blocks_pos: int, blocks: Seq<BlockSize>, compressions: Seq<CompressionPreference>, k: int)
    requires
        0 <= blocks_pos,
        0 <= k < blocks.len(),
        blocks_pos + 4 * blocks.len() <= d.len(),
        d.subrange(blocks_pos, blocks_pos + 4 * blocks.len()) == spec_v2_blocks_bytes(blocks, compressions),
        compressions.len() == blocks.len(),
        compressions[k] != CompressionPreference::NoPreference,
        blocks[k].compressed_size < 0x4000_0000,
    ensures
        spec_compression_from_code(get_bits64(spec_v2_block_word(d, blocks_pos, k), 0, 2) as u32) == Some(compressions[k]),
        get_bits64(spec_v2_block_word(d, blocks_pos, k), 2, 30) as u32 == blocks[k].compressed_size,
{
    let bb = spec_v2_blocks_bytes(blocks, compressions);
    lemma_v2_blocks_bytes_at(blocks, compressions, k);
    lemma_v2_blocks_bytes_len(blocks, compressions);
    assert(d.subrange(blocks_pos + 4 * k, blocks_pos + 4 * k + 4) =~= bb.subrange(4 * k, 4 * k + 4));
    let w = spec_v2_block_entry_word(blocks[k].compressed_size, compressions[k]);
    lemma_v2_block_entry_fields(blocks[k].compressed_size, compressions[k]);
    lemma_upper_half_clear64(w);
    lemma_read_u32_where(d, blocks_pos + 4 * k, w as u32);
}

/// Unpacking the item counts word gives back the counts that fit their fields.
proof fn lemma_item_counts_fields(pool: u64, pb: u64, blocks: u64, bb: u64, files: u64, fb: u64)
    requires
        pb + bb + fb <= 64,
        crate::utilities::bits::fits_bits64(pool, pb),
        crate::utilities::bits::fits_bits64(blocks, bb),
        crate::utilities::bits::fits_bits64(files, fb),
    ensures
        ({
            let ic = spec_item_counts_word(pool, pb, blocks, bb, files, fb);
            &&& field_get64(ic, 0, fb) == files
            &&& field_get64(ic, fb, bb) == blocks
            &&& field_get64(ic, (fb + bb) as u64, pb) == pool
        }),
{
    let w1 = field_set64(0, 0, fb, files);
    let w2 = field_set64(w1, fb, bb, blocks);
    let lo = (fb + bb) as u64;
    lemma_field_get_set_same64(0, 0, fb, files);
    lemma_field_get_set_same64(w1, fb, bb, blocks);
    lemma_field_get_set_same64(w2, lo, pb, pool);
    lemma_field_get_set_other64(w1, fb, bb, blocks, 0, fb);
    lemma_field_get_set_other64(w2, lo, pb, pool, 0, fb);
    lemma_field_get_set_other64(w2, lo, pb, pool, fb, bb);
}

/// What a FEF64 header declares, read from where it was written.
#[verifier::spinoff_prover]
#[verifier::rlimit(50)]
proof fn lemma_parse_fef64_header(d: Seq<u8>, p: nat, b: nat, n: nat, max_decomp_block_offset: u32)
    requires
        d.len() >= spec_v2_header_bytes(ToCFormat::FEF64, p, b, n, max_decomp_block_offset).len(),
        d.subrange(0, spec_v2_header_bytes(ToCFormat::FEF64, p, b, n, max_decomp_block_offset).len() as int)
            == spec_v2_header_bytes(ToCFormat::FEF64, p, b, n, max_decomp_block_offset),
        spec_v2_counts_fit(ToCFormat::FEF64, p, b, n, max_decomp_block_offset),
        spec_bits_needed(p) + spec_bits_needed(b) + spec_bits_needed(n) <= 64,
        counts_valid(spec_fef64_counts(b, n, max_decomp_block_offset)),
    ensures
        spec_parse_v2_header(d) == Ok::<(ToCFormat, bool, ItemCounts, int, int, int, int), DeserializeError>((
            ToCFormat::FEF64,
            true,
            spec_fef64_counts(b, n, max_decomp_block_offset),
            spec_v2_header_bytes(ToCFormat::FEF64, p, b, n, max_decomp_block_offset).len() as int,
            p as int,
            b as int,
            n as int,
        )),
{
    vstd::arithmetic::power2::lemma2_to64();
    vstd::arithmetic::power2::lemma2_to64_rest();
    let head = spec_v2_header_bytes(ToCFormat::FEF64, p, b, n, max_decomp_block_offset);
    let pb = spec_bits_needed(p);
    let bb = spec_bits_needed(b);
    let fb = spec_bits_needed(n);
    let ob = spec_bits_needed(max_decomp_block_offset as nat);
    crate::utilities::bit_count::lemma_bits_needed_lt_pow2(p, 31);
    crate::utilities::bit_count::lemma_bits_needed_lt_pow2(b, 31);
    crate::utilities::bit_count::lemma_bits_needed_lt_pow2(n, 31);
    let ic = spec_item_counts_word(p as u64, pb as u64, b as u64, bb as u64, n as u64, fb as u64);
    let hw = spec_fef64_header_word(true, pb as u8, fb as u8, bb as u8, ob as u8, ic);
    assert(head.subrange(0, 8) =~= le_bytes64(hw));
    assert(d.subrange(0, 8) =~= head.subrange(0, 8));
    lemma_read_u64_where(d, 0, hw);
    lemma_fef64_header_fields(true, pb as u8, fb as u8, bb as u8, ob as u8, ic);
    lemma_fits_bits64_needed(p as u64, pb as u64);
    lemma_fits_bits64_needed(b as u64, bb as u64);
    lemma_fits_bits64_needed(n as u64, fb as u64);
    lemma_item_counts_fields(p as u64, pb as u64, b as u64, bb as u64, n as u64, fb as u64);
    let w = read_u64_le(d, 0);
    assert(w == hw);
    assert(get_bits64(w, 63, 1) == 1);
    assert(get_bits64(w, 62, 1) == 1);
    assert(get_bits64(w, 57, 5) == pb as u64);
    assert(get_bits64(w, 52, 5) == fb as u64);
    assert(get_bits64(w, 47, 5) == bb as u64);
    assert(get_bits64(w, 42, 5) == ob as u64);
    if spec_fef64_needs_extra_8bytes(p, b, n) {
        assert(head.subrange(8, 16) =~= le_bytes64(ic));
        assert(d.subrange(8, 16) =~= head.subrange(8, 16));
        lemma_read_u64_where(d, 8, ic);
    } else {
        lemma_get_bits_low_mod64(ic, 42);
        lemma_field_get_low64(ic, 42, 0, fb as u64);
        lemma_field_get_low64(ic, 42, fb as u64, bb as u64);
        lemma_field_get_low64(ic, 42, (fb + bb) as u64, pb as u64);
    }
}

/// What a preset header declares, read from where it was written.
proof fn lemma_parse_preset_header(d: Seq<u8>, format: ToCFormat, p: nat, b: nat, n: nat, max_decomp_block_offset: u32)
    requires
        format != ToCFormat::FEF64,
        format != ToCFormat::Error,
        d.len() >= 8,
        d.subrange(0, 8) == spec_v2_header_bytes(format, p, b, n, max_decomp_block_offset),
        spec_v2_counts_fit(format, p, b, n, max_decomp_block_offset),
    ensures
        spec_parse_v2_header(d) matches Ok((f, h, c, hs, ps, bc, fc)) && f == format && hs == 8 && ps == p && bc == b && fc == n,
{
    vstd::arithmetic::power2::lemma2_to64();
    match format {
        ToCFormat::Preset0 => {
            lemma_read_u64_where(d, 0, spec_preset0_header_word(0, p as u32, b as u32, n as u32));
            lemma_preset0_header_fields(0, p as u32, b as u32, n as u32);
        },
        ToCFormat::Preset1 => {
            lemma_read_u64_where(d, 0, spec_preset0_header_word(1, p as u32, b as u32, n as u32));
            lemma_preset0_header_fields(1, p as u32, b as u32, n as u32);
        },
        ToCFormat::Preset2 => {
            lemma_read_u64_where(d, 0, spec_preset0_header_word(2, p as u32, b as u32, n as u32));
            lemma_preset0_header_fields(2, p as u32, b as u32, n as u32);
        },
        ToCFormat::Preset3 => {
            lemma_read_u64_where(d, 0, spec_preset3_header_word(true, p as u32, b as u16, n as u16));
            lemma_preset3_header_fields(true, p as u32, b as u16, n as u16);
        },
        _ => {
            lemma_read_u64_where(d, 0, spec_preset3_header_word(false, p as u32, b as u16, n as u16));
            lemma_preset3_header_fields(false, p as u32, b as u16, n as u16);
        },
    }
}

/// Where the parts of a serialized v2 table lie.
proof fn lemma_v2_table_layout(
    compressions: Seq<CompressionPreference>,
    blocks: Seq<BlockSize>,
    entries: Seq<FileEntry>,
    format: ToCFormat,
    max_decomp_block_offset: u32,
    pool: Seq<u8>,
)
    ensures
        ({
            let d = spec_v2_table_bytes(compressions, blocks, entries, format, max_decomp_block_offset, pool);
            let head = spec_v2_header_bytes(format, pool.len(), blocks.len(), entries.len(), max_decomp_block_offset);
            let c = spec_fef64_counts(blocks.len(), entries.len(), max_decomp_block_offset);
            let hs = head.len() as int;
            let blocks_pos = hs + entries.len() * spec_v2_entry_size(format);
            let pool_pos = blocks_pos + 4 * blocks.len();
            &&& d.len() == pool_pos + pool.len()
            &&& d.subrange(0, hs) == head
            &&& d.subrange(hs, blocks_pos) == spec_v2_entries_bytes(entries, format, c)
            &&& d.subrange(blocks_pos, pool_pos) == spec_v2_blocks_bytes(blocks, compressions)
            &&& d.subrange(pool_pos, pool_pos + pool.len()) == pool
        }),
{
    reveal(spec_v2_table_bytes);
    let d = spec_v2_table_bytes(compressions, blocks, entries, format, max_decomp_block_offset, pool);
    let head = spec_v2_header_bytes(format, pool.len(), blocks.len(), entries.len(), max_decomp_block_offset);
    let c = spec_fef64_counts(blocks.len(), entries.len(), max_decomp_block_offset);
    let hs = head.len() as int;
    let blocks_pos = hs + entries.len() * spec_v2_entry_size(format);
    let pool_pos = blocks_pos + 4 * blocks.len();
    lemma_v2_entries_bytes_len(entries, format, c);
    lemma_v2_blocks_bytes_len(blocks, compressions);
    assert(d.subrange(0, hs) =~= head);
    assert(d.subrange(hs, blocks_pos) =~= spec_v2_entries_bytes(entries, format, c));
    assert(d.subrange(blocks_pos, pool_pos) =~= spec_v2_blocks_bytes(blocks, compressions));
    assert(d.subrange(pool_pos, pool_pos + pool.len()) =~= pool);
}

/// The entries of a table in the order they were serialized, as their format keeps them.
pub open spec fn spec_stored_entries(format: ToCFormat, entries: Seq<FileEntry>) -> Seq<FileEntry> {
    Seq::new(entries.len(), |i: int| spec_stored_entry(format, entries[i]))
}

/// Reading the serialized v2 table gives back its parts, as its format keeps them.
#[verifier::rlimit(50)]
#[verifier::spinoff_prover]
proof fn lemma_parse_v2_table_bytes(
    compressions: Seq<CompressionPreference>,
    blocks: Seq<BlockSize>,
    entries: Seq<FileEntry>,
    format: ToCFormat,
    max_decomp_block_offset: u32,
    pool: Seq<u8>,
)
    requires
        spec_v2_table_fits(compressions, blocks, entries, format, max_decomp_block_offset, pool),
    ensures
        spec_parse_toc_v2(spec_v2_table_bytes(compressions, blocks, entries, format, max_decomp_block_offset, pool))
            == Ok::<(Seq<FileEntry>, Seq<BlockSize>, Seq<CompressionPreference>, Seq<u8>, nat), DeserializeError>(
                (spec_stored_entries(format, entries), blocks, compressions, pool, entries.len())),
{
    let d = spec_v2_table_bytes(compressions, blocks, entries, format, max_decomp_block_offset, pool);
    let head = spec_v2_header_bytes(format, pool.len(), blocks.len(), entries.len(), max_decomp_block_offset);
    let c = spec_fef64_counts(blocks.len(), entries.len(), max_decomp_block_offset);
    let hs = head.len() as int;
    let n = entries.len() as int;
    let b = blocks.len() as int;
    let es = spec_v2_entry_size(format) as int;
    let blocks_pos = hs + n * es;
    let pool_pos = blocks_pos + 4 * b;
    lemma_v2_table_layout(compressions, blocks, entries, format, max_decomp_block_offset, pool);
    if format == ToCFormat::FEF64 {
        lemma_parse_fef64_header(d, pool.len(), blocks.len(), entries.len(), max_decomp_block_offset);
    } else {
        lemma_parse_preset_header(d, format, pool.len(), blocks.len(), entries.len(), max_decomp_block_offset);
    }
    let (f, h, c2, hs2, ps, bc, fc) = spec_parse_v2_header(d)->Ok_0;
    assert(spec_v2_read_entry_size(format, h) == es);
    let eb = spec_v2_entries_bytes(entries, format, c);
    assert forall|i: int| 0 <= i < n implies #[trigger] spec_read_v2_entry(d, hs + i * es, format, h, c2) == spec_stored_entry(format, entries[i]) by {
        lemma_v2_entries_bytes_at(entries, format, c, i);
        assert(i * es + es <= n * es) by (nonlinear_arith)
            requires i < n, es >= 0;
        assert(0 <= i * es) by (nonlinear_arith)
            requires 0 <= i, es >= 0;
        assert(d.subrange(hs + i * es, hs + i * es + es) =~= eb.subrange(i * es, i * es + es));
        lemma_read_v2_entry_back(d, hs + i * es, format, h, c, entries[i]);
    }
    assert(Seq::new(n as nat, |i: int| spec_read_v2_entry(d, hs + i * es, format, h, c2)) =~= spec_stored_entries(format, entries));
    assert forall|k: int| 0 <= k < b implies
        #[trigger] spec_compression_from_code(get_bits64(spec_v2_block_word(d, blocks_pos, k), 0, 2) as u32) == Some(compressions[k]) by {
        lemma_read_v2_block_at(d, blocks_pos, blocks, compressions, k);
    }
    assert forall|k: int| 0 <= k < b implies
        #[trigger] get_bits64(spec_v2_block_word(d, blocks_pos, k), 2, 30) as u32 == blocks[k].compressed_size by {
        lemma_read_v2_block_at(d, blocks_pos, blocks, compressions, k);
    }
    assert(Seq::new(b as nat, |k: int| BlockSize { compressed_size: get_bits64(spec_v2_block_word(d, blocks_pos, k), 2, 30) as u32 }) =~= blocks);
    assert(Seq::new(b as nat, |k: int| spec_compression_from_code(get_bits64(spec_v2_block_word(d, blocks_pos, k), 0, 2) as u32).unwrap()) =~= compressions);
}

/// Deserializing a serialized v2 table of contents gives back its block sizes and block
/// compressions, its file entries as the format keeps them (Preset 1 and Preset 3
/// without hashes keep no hash, the Preset 3 layouts keep no offset inside the block),
/// and the string pool as unpacking its bytes gives it (or the error of unpacking them);
/// no other error can come.
///
/// This holds when the parts fit the format: a compression for every block and sizes
/// within 30 bits, counts within the header's fields, and each entry's values within
/// their fields.
pub proof fn lemma_toc_v2_round_trip(
    compressions: Seq<CompressionPreference>,
    blocks: Seq<BlockSize>,
    entries: Seq<FileEntry>,
    format: ToCFormat,
    max_decomp_block_offset: u32,
    pool: Seq<u8>,
    serialized: Vec<u8>,
    r: Result<TableOfContents, DeserializeError>,
)
    requires
        spec_v2_table_fits(compressions, blocks, entries, format, max_decomp_block_offset, pool),
        spec_serialize_v2_outcome(compressions, blocks, entries, format, max_decomp_block_offset, pool, Ok(serialized)),
        spec_deserialize_v2_outcome(serialized@, r),
    ensures
        match r {
            Ok(toc) => {
                &&& toc.entries@ == spec_stored_entries(format, entries)
                &&& toc.blocks@ == blocks
                &&& toc.block_compressions@ == compressions
                &&& spec_unpack_outcome(StringPoolFormat::V0, pool, entries.len() as usize, Ok(toc.pool))
            },
            Err(DeserializeError::StringPoolUnpackError(e)) => spec_unpack_outcome(StringPoolFormat::V0, pool, entries.len() as usize, Err(e)),
            Err(_) => false,
        },
{
    lemma_parse_v2_table_bytes(compressions, blocks, entries, format, max_decomp_block_offset, pool);
}

/// The serialized v2 table takes the size that [`calculate_toc_size`] gives.
///
/// [`calculate_toc_size`]: crate::headers::managed::v2::table_of_contents_builder::calculate_toc_size
pub proof fn lemma_v2_table_size(
    compressions: Seq<CompressionPreference>,
    blocks: Seq<BlockSize>,
    entries: Seq<FileEntry>,
    format: ToCFormat,
    max_decomp_block_offset: u32,
    pool: Seq<u8>,
)
    requires
        format != ToCFormat::Error,
    ensures
        spec_v2_table_bytes(compressions, blocks, entries, format, max_decomp_block_offset, pool).len()
            == spec_toc_size(format, pool.len(), blocks.len(), entries.len()),
{
    lemma_v2_table_layout(compressions, blocks, entries, format, max_decomp_block_offset, pool);
    let es = spec_v2_entry_size(format);
    assert(entries.len() * es == es * entries.len()) by (nonlinear_arith);
}

/// The 8 byte word of a Preset 0, 1 or 2 entry holds the offset in the block in bits
/// 40-63, the path index in bits 22-39 and the first block index in bits 0-21, each
/// truncated to its field.
pub open spec fn spec_preset_tuple_holds(t: u64, e: FileEntry) -> bool {
    &&& get_bits64(t, 40, 24) == e.decompressed_block_offset as u64 % 0x100_0000
    &&& get_bits64(t, 22, 18) == e.file_path_index as u64 % 0x4_0000
    &&& get_bits64(t, 0, 22) == e.first_block_index as u64 % 0x40_0000
}

/// Where each field of a file entry lies in a v2 table of contents serialized in one of
/// the presets: after the 8 byte header, file entry `i` starts at byte `8 + size * i`,
/// where an entry takes 20 bytes in Preset 0, 12 in Preset 1, 24 in Preset 2, 16 in
/// Preset 3 and 8 in Preset 3 without hashes. All values are little endian:
/// * Preset 0: the hash (8 bytes), the size (4 bytes), the offset/path/block word.
/// * Preset 1: the size (4 bytes), the offset/path/block word.
/// * Preset 2: the hash (8 bytes), the size (8 bytes), the offset/path/block word.
/// * Preset 3: the hash (8 bytes), the size (4 bytes), the path index (2 bytes), the
///   block index (2 bytes).
/// * Preset 3 without hashes: the size (4 bytes), the path index (2 bytes), the block
///   index (2 bytes).
///
/// Sizes and indices are truncated to their fields.
pub proof fn lemma_toc_v2_preset_entry_layout(
    compressions: Seq<CompressionPreference>,
    blocks: Seq<BlockSize>,
    entries: Seq<FileEntry>,
    format: ToCFormat,
    max_decomp_block_offset: u32,
    pool: Seq<u8>,
    serialized: Vec<u8>,
    i: int,
)
    requires
        0 <= i < entries.len(),
        format != ToCFormat::FEF64,
        spec_serialize_v2_outcome(compressions, blocks, entries, format, max_decomp_block_offset, pool, Ok(serialized)),
    ensures
        ({
            let d = serialized@;
            let e = entries[i];
            let size: int = match format {
                ToCFormat::Preset0 => 20,
                ToCFormat::Preset1 => 12,
                ToCFormat::Preset2 => 24,
                ToCFormat::Preset3 => 16,
                _ => 8,
            };
            let pos = 8 + size * i;
            &&& format != ToCFormat::Error
            &&& pos + size <= d.len()
            &&& format == ToCFormat::Preset0 ==> {
                &&& read_u64_le(d, pos) == e.hash
                &&& read_u32_le(d, pos + 8) == e.decompressed_size as u32
                &&& spec_preset_tuple_holds(read_u64_le(d, pos + 12), e)
            }
            &&& format == ToCFormat::Preset1 ==> {
                &&& read_u32_le(d, pos) == e.decompressed_size as u32
                &&& spec_preset_tuple_holds(read_u64_le(d, pos + 4), e)
            }
            &&& format == ToCFormat::Preset2 ==> {
                &&& read_u64_le(d, pos) == e.hash
                &&& read_u64_le(d, pos + 8) == e.decompressed_size
                &&& spec_preset_tuple_holds(read_u64_le(d, pos + 16), e)
            }
            &&& format == ToCFormat::Preset3 ==> {
                &&& read_u64_le(d, pos) == e.hash
                &&& read_u32_le(d, pos + 8) == e.decompressed_size as u32
                &&& read_u16_le(d, pos + 12) == e.file_path_index as u16
                &&& read_u16_le(d, pos + 14) == e.first_block_index as u16
            }
            &&& format == ToCFormat::Preset3NoHash ==> {
                &&& read_u32_le(d, pos) == e.decompressed_size as u32
                &&& read_u16_le(d, pos + 4) == e.file_path_index as u16
                &&& read_u16_le(d, pos + 6) == e.first_block_index as u16
            }
        }),
{
    let d = serialized@;
    let e = entries[i];
    let c = spec_fef64_counts(blocks.len(), entries.len(), max_decomp_block_offset);
    let es = spec_v2_entry_size(format) as int;
    let n = entries.len() as int;
    lemma_v2_table_layout(compressions, blocks, entries, format, max_decomp_block_offset, pool);
    lemma_v2_entries_bytes_len(entries, format, c);
    lemma_v2_entries_bytes_at(entries, format, c, i);
    assert(i * es + es <= n * es) by (nonlinear_arith)
        requires i < n, es > 0;
    assert(es * i == i * es) by (nonlinear_arith);
    let pos = 8 + i * es;
    let b = spec_v2_entry_bytes(format, c, e);
    assert(d.subrange(pos, pos + es) =~= b) by {
        assert(d.subrange(pos, pos + es) =~= d.subrange(8, 8 + n * es).subrange(i * es, i * es + es));
    }
    lemma_preset_entry_fields(d, pos, format, c, e);
}

/// Where the parts of a v2 table of contents serialized in one of the presets lie: the
/// 8 byte header word first, then the file entries (20 bytes each in Preset 0, 12 in
/// Preset 1, 24 in Preset 2, 16 in Preset 3 and 8 in Preset 3 without hashes), then one
/// 4 byte word per block, then the string pool, which ends the table. All values are
/// little endian and truncated to their fields.
/// * Presets 0, 1 and 2: the header holds the file count in bits 0-17, the block count in
///   bits 18-39, the string pool size in bits 40-60 and the preset number in bits 61-62.
/// * Preset 3: the header holds zero in bits 0-7, the file count in bits 8-23, the block
///   count in bits 24-39, the string pool size in bits 40-59, whether entries hold hashes
///   in bit 60 and the preset number 3 in bits 61-62.
/// * A block word holds the compression code in bits 0-1 and the compressed size in bits
///   2-31.
pub proof fn lemma_toc_v2_preset_sections_layout(
    compressions: Seq<CompressionPreference>,
    blocks: Seq<BlockSize>,
    entries: Seq<FileEntry>,
    format: ToCFormat,
    max_decomp_block_offset: u32,
    pool: Seq<u8>,
    serialized: Vec<u8>,
)
    requires
        format != ToCFormat::FEF64,
        spec_serialize_v2_outcome(compressions, blocks, entries, format, max_decomp_block_offset, pool, Ok(serialized)),
    ensures
        ({
            let d = serialized@;
            let n = entries.len() as int;
            let size: int = match format {
                ToCFormat::Preset0 => 20,
                ToCFormat::Preset1 => 12,
                ToCFormat::Preset2 => 24,
                ToCFormat::Preset3 => 16,
                _ => 8,
            };
            let blocks_pos = 8 + size * n;
            let pool_pos = blocks_pos + 4 * blocks.len();
            let h = read_u64_le(d, 0);
            let preset: u64 = match format {
                ToCFormat::Preset0 => 0,
                ToCFormat::Preset1 => 1,
                ToCFormat::Preset2 => 2,
                _ => 3,
            };
            &&& d.len() == pool_pos + pool.len()
            &&& get_bits64(h, 63, 1) == 0
            &&& get_bits64(h, 61, 2) == preset
            &&& preset < 3 ==> {
                &&& get_bits64(h, 40, 21) == (pool.len() as u32) as u64 % 0x20_0000
                &&& get_bits64(h, 18, 22) == (blocks.len() as u32) as u64 % 0x40_0000
                &&& get_bits64(h, 0, 18) == (entries.len() as u32) as u64 % 0x4_0000
            }
            &&& preset == 3 ==> {
                &&& (get_bits64(h, 60, 1) == 1) == (format == ToCFormat::Preset3)
                &&& get_bits64(h, 40, 20) == (pool.len() as u32) as u64 % 0x10_0000
                &&& get_bits64(h, 24, 16) == (blocks.len() as u16) as u64
                &&& get_bits64(h, 8, 16) == (entries.len() as u16) as u64
                &&& get_bits64(h, 0, 8) == 0
            }
            &&& forall|k: int| 0 <= k < blocks.len() && k < compressions.len() && compressions[k] != CompressionPreference::NoPreference ==> {
                let w = #[trigger] read_u32_le(d, blocks_pos + 4 * k) as u64;
                &&& get_bits64(w, 2, 30) == blocks[k].compressed_size as u64 % 0x4000_0000
                &&& spec_compression_from_code(get_bits64(w, 0, 2) as u32) == Some(compressions[k])
            }
            &&& d.subrange(pool_pos, d.len() as int) == pool
        }),
{
    let d = serialized@;
    let es = spec_v2_entry_size(format) as int;
    let n = entries.len() as int;
    let blocks_pos = 8 + n * es;
    let c = spec_fef64_counts(blocks.len(), entries.len(), max_decomp_block_offset);
    lemma_v2_table_layout(compressions, blocks, entries, format, max_decomp_block_offset, pool);
    lemma_v2_entries_bytes_len(entries, format, c);
    lemma_v2_blocks_bytes_len(blocks, compressions);
    assert(n * es == es * n) by (nonlinear_arith);
    match format {
        ToCFormat::Preset0 | ToCFormat::Preset1 | ToCFormat::Preset2 => {
            let p: u8 = if format == ToCFormat::Preset0 { 0 } else if format == ToCFormat::Preset1 { 1 } else { 2 };
            let hw = spec_preset0_header_word(p, pool.len() as u32, blocks.len() as u32, entries.len() as u32);
            assert(d.subrange(0, 8) == le_bytes64(hw));
            lemma_read_u64_where(d, 0, hw);
            lemma_preset0_header_fields(p, pool.len() as u32, blocks.len() as u32, entries.len() as u32);
        },
        _ => {
            let hw = spec_preset3_header_word(format == ToCFormat::Preset3, pool.len() as u32, blocks.len() as u16, entries.len() as u16);
            assert(d.subrange(0, 8) == le_bytes64(hw));
            lemma_read_u64_where(d, 0, hw);
            lemma_preset3_header_fields(format == ToCFormat::Preset3, pool.len() as u32, blocks.len() as u16, entries.len() as u16);
        },
    }
    let bb = spec_v2_blocks_bytes(blocks, compressions);
    assert forall|k: int| 0 <= k < blocks.len() && k < compressions.len() && compressions[k] != CompressionPreference::NoPreference implies {
        let w = #[trigger] read_u32_le(d, blocks_pos + 4 * k) as u64;
        &&& get_bits64(w, 2, 30) == blocks[k].compressed_size as u64 % 0x4000_0000
        &&& spec_compression_from_code(get_bits64(w, 0, 2) as u32) == Some(compressions[k])
    } by {
        lemma_v2_blocks_bytes_at(blocks, compressions, k);
        assert(d.subrange(blocks_pos + 4 * k, blocks_pos + 4 * k + 4) =~= bb.subrange(4 * k, 4 * k + 4));
        let w = spec_v2_block_entry_word(blocks[k].compressed_size, compressions[k]);
        lemma_v2_block_entry_fields(blocks[k].compressed_size, compressions[k]);
        lemma_upper_half_clear64(w);
        lemma_read_u32_where(d, blocks_pos + 4 * k, w as u32);
    }
}

/// Where each field of a file entry lies in a v2 table of contents serialized in the
/// Flexible Entry Format: after the header (8 bytes, or 16 when the item counts take a
/// word of their own), file entry `i` starts at byte `header + 16 * i`. It holds the hash
/// in its first 8 bytes, then a word that holds, from the lowest bits up, the first block
/// index, the path index and the offset in the block, each in as many bits as the block
/// count, file count and largest offset need, and the size in the bits left over. All
/// values are little endian; this holds of tables whose values fit their fields.
pub proof fn lemma_toc_v2_fef64_entry_layout(
    compressions: Seq<CompressionPreference>,
    blocks: Seq<BlockSize>,
    entries: Seq<FileEntry>,
    max_decomp_block_offset: u32,
    pool: Seq<u8>,
    serialized: Vec<u8>,
    i: int,
)
    requires
        0 <= i < entries.len(),
        spec_fef64_writable(entries, blocks.len(), pool.len(), max_decomp_block_offset),
        spec_serialize_v2_outcome(compressions, blocks, entries, ToCFormat::FEF64, max_decomp_block_offset, pool, Ok(serialized)),
    ensures
        ({
            let d = serialized@;
            let e = entries[i];
            let c = spec_fef64_counts(blocks.len(), entries.len(), max_decomp_block_offset);
            let bb = c.block_count_bits as u64;
            let fb = c.file_count_bits as u64;
            let ob = c.decompressed_block_offset_bits as u64;
            let hs: int = if spec_fef64_needs_extra_8bytes(pool.len(), blocks.len(), entries.len()) { 16 } else { 8 };
            let pos = hs + 16 * i;
            let w = read_u64_le(d, pos + 8);
            &&& pos + 16 <= d.len()
            &&& read_u64_le(d, pos) == e.hash
            &&& field_get64(w, 0, bb) == e.first_block_index as u64
            &&& field_get64(w, bb, fb) == e.file_path_index as u64
            &&& field_get64(w, (bb + fb) as u64, ob) == e.decompressed_block_offset as u64
            &&& field_get64(w, (bb + fb + ob) as u64, (64 - (bb + fb + ob)) as u64) == e.decompressed_size
        }),
{
    let d = serialized@;
    let e = entries[i];
    let format = ToCFormat::FEF64;
    let c = spec_fef64_counts(blocks.len(), entries.len(), max_decomp_block_offset);
    let head = spec_v2_header_bytes(format, pool.len(), blocks.len(), entries.len(), max_decomp_block_offset);
    let hs = head.len() as int;
    let es = 16int;
    let n = entries.len() as int;
    lemma_v2_table_layout(compressions, blocks, entries, format, max_decomp_block_offset, pool);
    lemma_v2_entries_bytes_len(entries, format, c);
    lemma_v2_entries_bytes_at(entries, format, c, i);
    assert(i * es + es <= n * es) by (nonlinear_arith)
        requires i < n, es == 16;
    let pos = hs + i * es;
    let b = spec_v2_entry_bytes(format, c, e);
    assert(d.subrange(pos, pos + es) =~= b) by {
        assert(d.subrange(pos, pos + es) =~= d.subrange(hs, hs + n * es).subrange(i * es, i * es + es));
    }
    let w = spec_entry8_word(c, e.decompressed_size, e.decompressed_block_offset as u64, e.file_path_index as u64, e.first_block_index as u64);
    assert(values_fit(c, entries[i].decompressed_size, entries[i].decompressed_block_offset as u64, entries[i].file_path_index as u64, entries[i].first_block_index as u64));
    lemma_entry8_fields(c, e.decompressed_size, e.decompressed_block_offset as u64, e.file_path_index as u64, e.first_block_index as u64);
    assert(d.subrange(pos, pos + 8) =~= b.subrange(0, 8));
    assert(b.subrange(0, 8) =~= le_bytes64(e.hash));
    lemma_read_u64_where(d, pos, e.hash);
    assert(d.subrange(pos + 8, pos + 16) =~= b.subrange(8, 16));
    assert(b.subrange(8, 16) =~= le_bytes64(w));
    lemma_read_u64_where(d, pos + 8, w);
}

/// Where the parts of a v2 table of contents serialized in the Flexible Entry Format lie:
/// the header word first, then (when the item counts need more than its 42 low bits) a
/// word of item counts, then the file entries (16 bytes each), then one 4 byte word per
/// block, then the string pool, which ends the table. The header word has its top bit set,
/// bit 62 set (entries hold hashes), and holds in five bits each, from bit 57 down, the
/// bits of the string pool size, of the file count, of the block count and of the largest
/// offset. A block word holds the compression code in bits 0-1 and the compressed size in
/// bits 2-31. All values are little endian and truncated to their fields.
pub proof fn lemma_toc_v2_fef64_sections_layout(
    compressions: Seq<CompressionPreference>,
    blocks: Seq<BlockSize>,
    entries: Seq<FileEntry>,
    max_decomp_block_offset: u32,
    pool: Seq<u8>,
    serialized: Vec<u8>,
)
    requires
        spec_serialize_v2_outcome(compressions, blocks, entries, ToCFormat::FEF64, max_decomp_block_offset, pool, Ok(serialized)),
    ensures
        ({
            let d = serialized@;
            let n = entries.len() as int;
            let hs: int = if spec_fef64_needs_extra_8bytes(pool.len(), blocks.len(), entries.len()) { 16 } else { 8 };
            let blocks_pos = hs + 16 * n;
            let pool_pos = blocks_pos + 4 * blocks.len();
            let h = read_u64_le(d, 0);
            &&& d.len() == pool_pos + pool.len()
            &&& get_bits64(h, 63, 1) == 1
            &&& get_bits64(h, 62, 1) == 1
            &&& get_bits64(h, 57, 5) == (spec_bits_needed(pool.len()) as u8) as u64 % 32
            &&& get_bits64(h, 52, 5) == (spec_bits_needed(entries.len()) as u8) as u64 % 32
            &&& get_bits64(h, 47, 5) == (spec_bits_needed(blocks.len()) as u8) as u64 % 32
            &&& get_bits64(h, 42, 5) == (spec_bits_needed(max_decomp_block_offset as nat) as u8) as u64 % 32
            &&& forall|k: int| 0 <= k < blocks.len() && k < compressions.len() && compressions[k] != CompressionPreference::NoPreference ==> {
                let w = #[trigger] read_u32_le(d, blocks_pos + 4 * k) as u64;
                &&& get_bits64(w, 2, 30) == blocks[k].compressed_size as u64 % 0x4000_0000
                &&& spec_compression_from_code(get_bits64(w, 0, 2) as u32) == Some(compressions[k])
            }
            &&& d.subrange(pool_pos, d.len() as int) == pool
        }),
{
    let d = serialized@;
    let format = ToCFormat::FEF64;
    let es = 16int;
    let n = entries.len() as int;
    let c = spec_fef64_counts(blocks.len(), entries.len(), max_decomp_block_offset);
    let head = spec_v2_header_bytes(format, pool.len(), blocks.len(), entries.len(), max_decomp_block_offset);
    let hs = head.len() as int;
    let blocks_pos = hs + n * es;
    lemma_v2_table_layout(compressions, blocks, entries, format, max_decomp_block_offset, pool);
    lemma_v2_entries_bytes_len(entries, format, c);
    lemma_v2_blocks_bytes_len(blocks, compressions);
    assert(n * es == es * n) by (nonlinear_arith);
    let pb = spec_bits_needed(pool.len());
    let bb = spec_bits_needed(blocks.len());
    let fb = spec_bits_needed(entries.len());
    let ob = spec_bits_needed(max_decomp_block_offset as nat);
    let ic = spec_item_counts_word(pool.len() as u64, pb as u64, blocks.len() as u64, bb as u64, entries.len() as u64, fb as u64);
    let hw = spec_fef64_header_word(true, pb as u8, fb as u8, bb as u8, ob as u8, ic);
    assert(head.subrange(0, 8) =~= le_bytes64(hw));
    assert(d.subrange(0, 8) =~= head.subrange(0, 8));
    lemma_read_u64_where(d, 0, hw);
    lemma_fef64_header_fields(true, pb as u8, fb as u8, bb as u8, ob as u8, ic);
    let bbytes = spec_v2_blocks_bytes(blocks, compressions);
    assert forall|k: int| 0 <= k < blocks.len() && k < compressions.len() && compressions[k] != CompressionPreference::NoPreference implies {
        let w = #[trigger] read_u32_le(d, blocks_pos + 4 * k) as u64;
        &&& get_bits64(w, 2, 30) == blocks[k].compressed_size as u64 % 0x4000_0000
        &&& spec_compression_from_code(get_bits64(w, 0, 2) as u32) == Some(compressions[k])
    } by {
        lemma_v2_blocks_bytes_at(blocks, compressions, k);
        assert(d.subrange(blocks_pos + 4 * k, blocks_pos + 4 * k + 4) =~= bbytes.subrange(4 * k, 4 * k + 4));
        let w = spec_v2_block_entry_word(blocks[k].compressed_size, compressions[k]);
        lemma_v2_block_entry_fields(blocks[k].compressed_size, compressions[k]);
        lemma_upper_half_clear64(w);
        lemma_read_u32_where(d, blocks_pos + 4 * k, w as u32);
    }
}

/// The fields of a preset entry whose bytes lie at `pos` of `d`, read where the layout
/// puts them.
#[verifier::spinoff_prover]
proof fn lemma_preset_entry_fields(d: Seq<u8>, pos: int, format: ToCFormat, c: ItemCounts, e: FileEntry)
    requires
        format != ToCFormat::FEF64,
        format != ToCFormat::Error,
        0 <= pos,
        pos + spec_v2_entry_size(format) <= d.len(),
        d.subrange(pos, pos + spec_v2_entry_size(format)) == spec_v2_entry_bytes(format, c, e),
    ensures
        format == ToCFormat::Preset0 ==> {
            &&& read_u64_le(d, pos) == e.hash
            &&& read_u32_le(d, pos + 8) == e.decompressed_size as u32
            &&& spec_preset_tuple_holds(read_u64_le(d, pos + 12), e)
        },
        format == ToCFormat::Preset1 ==> {
            &&& read_u32_le(d, pos) == e.decompressed_size as u32
            &&& spec_preset_tuple_holds(read_u64_le(d, pos + 4), e)
        },
        format == ToCFormat::Preset2 ==> {
            &&& read_u64_le(d, pos) == e.hash
            &&& read_u64_le(d, pos + 8) == e.decompressed_size
            &&& spec_preset_tuple_holds(read_u64_le(d, pos + 16), e)
        },
        format == ToCFormat::Preset3 ==> {
            &&& read_u64_le(d, pos) == e.hash
            &&& read_u32_le(d, pos + 8) == e.decompressed_size as u32
            &&& read_u16_le(d, pos + 12) == e.file_path_index as u16
            &&& read_u16_le(d, pos + 14) == e.first_block_index as u16
        },
        format == ToCFormat::Preset3NoHash ==> {
            &&& read_u32_le(d, pos) == e.decompressed_size as u32
            &&& read_u16_le(d, pos + 4) == e.file_path_index as u16
            &&& read_u16_le(d, pos + 6) == e.first_block_index as u16
        },
{
    let b = d.subrange(pos, pos + spec_v2_entry_size(format));
    let t = spec_common_tuple_word(e.decompressed_block_offset, e.file_path_index, e.first_block_index);
    lemma_common_tuple_fields(e.decompressed_block_offset, e.file_path_index, e.first_block_index);
    let iw = spec_p3_index_word(e.file_path_index as u16, e.first_block_index as u16) as u32;
    lemma_p3_index_word_halves(e.file_path_index as u16, e.first_block_index as u16);
    match format {
        ToCFormat::Preset0 => {
            assert(d.subrange(pos, pos + 8) =~= b.subrange(0, 8));
            assert(b.subrange(0, 8) =~= le_bytes64(e.hash));
            lemma_read_u64_where(d, pos, e.hash);
            assert(d.subrange(pos + 8, pos + 12) =~= b.subrange(8, 12));
            assert(b.subrange(8, 12) =~= le_bytes32(e.decompressed_size as u32));
            lemma_read_u32_where(d, pos + 8, e.decompressed_size as u32);
            assert(d.subrange(pos + 12, pos + 20) =~= b.subrange(12, 20));
            assert(b.subrange(12, 20) =~= le_bytes64(t));
            lemma_read_u64_where(d, pos + 12, t);
        },
        ToCFormat::Preset1 => {
            assert(d.subrange(pos, pos + 4) =~= b.subrange(0, 4));
            assert(b.subrange(0, 4) =~= le_bytes32(e.decompressed_size as u32));
            lemma_read_u32_where(d, pos, e.decompressed_size as u32);
            assert(d.subrange(pos + 4, pos + 12) =~= b.subrange(4, 12));
            assert(b.subrange(4, 12) =~= le_bytes64(t));
            lemma_read_u64_where(d, pos + 4, t);
        },
        ToCFormat::Preset2 => {
            assert(d.subrange(pos, pos + 8) =~= b.subrange(0, 8));
            assert(b.subrange(0, 8) =~= le_bytes64(e.hash));
            lemma_read_u64_where(d, pos, e.hash);
            assert(d.subrange(pos + 8, pos + 16) =~= b.subrange(8, 16));
            assert(b.subrange(8, 16) =~= le_bytes64(e.decompressed_size));
            lemma_read_u64_where(d, pos + 8, e.decompressed_size);
            assert(d.subrange(pos + 16, pos + 24) =~= b.subrange(16, 24));
            assert(b.subrange(16, 24) =~= le_bytes64(t));
            lemma_read_u64_where(d, pos + 16, t);
        },
        ToCFormat::Preset3 => {
            assert(d.subrange(pos, pos + 8) =~= b.subrange(0, 8));
            assert(b.subrange(0, 8) =~= le_bytes64(e.hash));
            lemma_read_u64_where(d, pos, e.hash);
            assert(d.subrange(pos + 8, pos + 12) =~= b.subrange(8, 12));
            assert(b.subrange(8, 12) =~= le_bytes32(e.decompressed_size as u32));
            lemma_read_u32_where(d, pos + 8, e.decompressed_size as u32);
            assert(d.subrange(pos + 12, pos + 16) =~= b.subrange(12, 16));
            assert(b.subrange(12, 16) =~= le_bytes32(iw));
            lemma_read_u16_halves(d, pos + 12, iw);
        },
        _ => {
            assert(d.subrange(pos, pos + 4) =~= b.subrange(0, 4));
            assert(b.subrange(0, 4) =~= le_bytes32(e.decompressed_size as u32));
            lemma_read_u32_where(d, pos, e.decompressed_size as u32);
            assert(d.subrange(pos + 4, pos + 8) =~= b.subrange(4, 8));
            assert(b.subrange(4, 8) =~= le_bytes32(iw));
            lemma_read_u16_halves(d, pos + 4, iw);
        },
    }
}

/// What a v2 table of contents holds comes back when it is read: the block sizes and
/// compressions, the file entries as the format keeps them, and the file paths packed
/// into its string pool.
///
/// This holds for parts that fit the format (see [`lemma_toc_v2_round_trip`]), one path
/// per entry, each valid UTF-8 without zero bytes.
pub proof fn lemma_toc_v2_paths_round_trip(
    compressions: Seq<CompressionPreference>,
    blocks: Seq<BlockSize>,
    entries: Seq<FileEntry>,
    format: ToCFormat,
    max_decomp_block_offset: u32,
    paths: Seq<Seq<u8>>,
    pool: Vec<u8>,
    serialized: Vec<u8>,
    r: Result<TableOfContents, DeserializeError>,
)
    requires
        all_utf8(paths),
        no_zero_bytes(paths),
        paths.len() == entries.len(),
        spec_pack_outcome(StringPoolFormat::V0, paths, Ok(pool)),
        spec_v2_table_fits(compressions, blocks, entries, format, max_decomp_block_offset, pool@),
        spec_serialize_v2_outcome(compressions, blocks, entries, format, max_decomp_block_offset, pool@, Ok(serialized)),
        spec_deserialize_v2_outcome(serialized@, r),
    ensures
        r matches Ok(toc) && {
            &&& toc.version == TableOfContentsVersion::V2
            &&& toc.entries@ == spec_stored_entries(format, entries)
            &&& toc.blocks@ == blocks
            &&& toc.block_compressions@ == compressions
            &&& toc.pool@ == paths
        },
{
    lemma_toc_v2_round_trip(compressions, blocks, entries, format, max_decomp_block_offset, pool@, serialized, r);
    if format == ToCFormat::FEF64 {
        vstd::arithmetic::power2::lemma2_to64();
        crate::utilities::bit_count::lemma_bits_needed_lt_pow2(entries.len(), 31);
    }
    match r {
        Ok(toc) => {
            lemma_string_pool_round_trip(StringPoolFormat::V0, paths, pool, Ok(toc.pool));
        },
        Err(DeserializeError::StringPoolUnpackError(e)) => {
            lemma_string_pool_round_trip(StringPoolFormat::V0, paths, pool, Err(e));
        },
        Err(_) => {},
    }
}

/// Whether file entries agree with the counts a format was chosen for: no file larger
/// than the largest, no offset past the largest offset, and each index below its count.
pub open spec fn spec_entries_within(entries: Seq<FileEntry>, largest_file_size: u64, max_decomp_block_offset: u32, block_count: nat) -> bool {
    forall|i: int| 0 <= i < entries.len() ==> {
        &&& (#[trigger] entries[i]).decompressed_size <= largest_file_size
        &&& entries[i].decompressed_block_offset <= max_decomp_block_offset
        &&& entries[i].file_path_index < entries.len()
        &&& entries[i].first_block_index < block_count
    }
}

/// The format picked for a table's counts holds the table: its counts fit the header and
/// every entry that agrees with the counts fits its fields.
///
/// Preset 1 and Preset 2 are picked whatever the largest offset, which they hold in 24
/// bits; FEF64 is picked whatever the width of the string pool size, which must fit in
/// 64 bits with those of the block and file counts, and must leave a bit for the size:
/// those cases are left out.
pub proof fn lemma_chosen_format_holds_table(
    compressions: Seq<CompressionPreference>,
    blocks: Seq<BlockSize>,
    entries: Seq<FileEntry>,
    max_decomp_block_offset: u32,
    largest_file_size: u64,
    need_hashes: bool,
    pool: Seq<u8>,
)
    requires
        compressions.len() == blocks.len(),
        forall|k: int| 0 <= k < blocks.len() ==> #[trigger] compressions[k] != CompressionPreference::NoPreference,
        forall|k: int| 0 <= k < blocks.len() ==> #[trigger] blocks[k].compressed_size < 0x4000_0000,
        spec_entries_within(entries, largest_file_size, max_decomp_block_offset, blocks.len()),
        pool.len() <= u32::MAX,
        blocks.len() <= u32::MAX,
        entries.len() <= u32::MAX,
        ({
            let format = spec_optimal_toc_format(pool.len() as u32, max_decomp_block_offset, blocks.len() as u32, entries.len() as u32, need_hashes, largest_file_size);
            &&& format != ToCFormat::Error
            &&& (format == ToCFormat::Preset1 || format == ToCFormat::Preset2) ==> max_decomp_block_offset < 0x100_0000
            &&& format == ToCFormat::FEF64 ==> {
                &&& spec_bits_needed(pool.len()) + spec_bits_needed(blocks.len()) + spec_bits_needed(entries.len()) <= 64
                &&& spec_bits_needed(max_decomp_block_offset as nat) + spec_bits_needed(blocks.len()) + spec_bits_needed(entries.len()) < 64
            }
        }),
    ensures
        spec_v2_table_fits(
            compressions,
            blocks,
            entries,
            spec_optimal_toc_format(pool.len() as u32, max_decomp_block_offset, blocks.len() as u32, entries.len() as u32, need_hashes, largest_file_size),
            max_decomp_block_offset,
            pool,
        ),
{
    let p = pool.len() as u32;
    let b = blocks.len() as u32;
    let n = entries.len() as u32;
    let format = spec_optimal_toc_format(p, max_decomp_block_offset, b, n, need_hashes, largest_file_size);
    lemma_optimal_toc_format_fits(p, max_decomp_block_offset, b, n, need_hashes, largest_file_size);
    let c = spec_fef64_counts(blocks.len(), entries.len(), max_decomp_block_offset);
    let bs = spec_bits_needed(largest_file_size as nat);
    assert forall|i: int| 0 <= i < entries.len() implies #[trigger] spec_v2_entry_fits(format, c, entries[i]) by {
        let e = entries[i];
        if format == ToCFormat::FEF64 {
            crate::utilities::bit_count::lemma_bits_needed_mono(e.decompressed_size as nat, largest_file_size as nat);
            crate::utilities::bit_count::lemma_bits_needed_mono(e.decompressed_block_offset as nat, max_decomp_block_offset as nat);
            crate::utilities::bit_count::lemma_bits_needed_mono(e.file_path_index as nat, entries.len());
            crate::utilities::bit_count::lemma_bits_needed_mono(e.first_block_index as nat, blocks.len());
            lemma_fits_bits64_needed(e.decompressed_size, crate::headers::raw::toc::v2::fef64::fileentry8::size_bits(c));
            lemma_fits_bits64_needed(e.decompressed_block_offset as u64, c.decompressed_block_offset_bits as u64);
            lemma_fits_bits64_needed(e.file_path_index as u64, c.file_count_bits as u64);
            lemma_fits_bits64_needed(e.first_block_index as u64, c.block_count_bits as u64);
        }
    }
    assert(spec_v2_counts_fit(format, pool.len(), blocks.len(), entries.len(), max_decomp_block_offset));
    if format == ToCFormat::FEF64 {
        assert forall|i: int| 0 <= i < entries.len() implies #[trigger] values_fit(
            c,
            entries[i].decompressed_size,
            entries[i].decompressed_block_offset as u64,
            entries[i].file_path_index as u64,
            entries[i].first_block_index as u64,
        ) by {
            assert(spec_v2_entry_fits(format, c, entries[i]));
        }
        assert(counts_valid(c));
        assert(spec_fef64_writable(entries, blocks.len(), pool.len(), max_decomp_block_offset));
    }
}

/// A table written in the format picked for its counts reads back: its block sizes and
/// compressions, its file entries as the format keeps them, and the string pool as
/// unpacking its bytes gives it (or the error of unpacking them).
///
/// This holds for the tables of [`lemma_chosen_format_holds_table`].
pub proof fn lemma_chosen_format_round_trip(
    compressions: Seq<CompressionPreference>,
    blocks: Seq<BlockSize>,
    entries: Seq<FileEntry>,
    max_decomp_block_offset: u32,
    largest_file_size: u64,
    need_hashes: bool,
    pool: Seq<u8>,
    serialized: Vec<u8>,
    r: Result<TableOfContents, DeserializeError>,
)
    requires
        compressions.len() == blocks.len(),
        forall|k: int| 0 <= k < blocks.len() ==> #[trigger] compressions[k] != CompressionPreference::NoPreference,
        forall|k: int| 0 <= k < blocks.len() ==> #[trigger] blocks[k].compressed_size < 0x4000_0000,
        spec_entries_within(entries, largest_file_size, max_decomp_block_offset, blocks.len()),
        pool.len() <= u32::MAX,
        blocks.len() <= u32::MAX,
        entries.len() <= u32::MAX,
        ({
            let format = spec_optimal_toc_format(pool.len() as u32, max_decomp_block_offset, blocks.len() as u32, entries.len() as u32, need_hashes, largest_file_size);
            &&& format != ToCFormat::Error
            &&& (format == ToCFormat::Preset1 || format == ToCFormat::Preset2) ==> max_decomp_block_offset < 0x100_0000
            &&& format == ToCFormat::FEF64 ==> {
                &&& spec_bits_needed(pool.len()) + spec_bits_needed(blocks.len()) + spec_bits_needed(entries.len()) <= 64
                &&& spec_bits_needed(max_decomp_block_offset as nat) + spec_bits_needed(blocks.len()) + spec_bits_needed(entries.len()) < 64
            }
            &&& spec_serialize_v2_outcome(compressions, blocks, entries, format, max_decomp_block_offset, pool, Ok(serialized))
        }),
        spec_deserialize_v2_outcome(serialized@, r),
    ensures
        ({
            let format = spec_optimal_toc_format(pool.len() as u32, max_decomp_block_offset, blocks.len() as u32, entries.len() as u32, need_hashes, largest_file_size);
            match r {
                Ok(toc) => {
                    &&& toc.entries@ == spec_stored_entries(format, entries)
                    &&& toc.blocks@ == blocks
                    &&& toc.block_compressions@ == compressions
                    &&& spec_unpack_outcome(StringPoolFormat::V0, pool, entries.len() as usize, Ok(toc.pool))
                },
                Err(DeserializeError::StringPoolUnpackError(e)) => spec_unpack_outcome(StringPoolFormat::V0, pool, entries.len() as usize, Err(e)),
                Err(_) => false,
            }
        }),
{
    let format = spec_optimal_toc_format(pool.len() as u32, max_decomp_block_offset, blocks.len() as u32, entries.len() as u32, need_hashes, largest_file_size);
    lemma_chosen_format_holds_table(compressions, blocks, entries, max_decomp_block_offset, largest_file_size, need_hashes, pool);
    lemma_toc_v2_round_trip(compressions, blocks, entries, format, max_decomp_block_offset, pool, serialized, r);
}

impl TableOfContents {
    /// Deserializes the v2 table of contents; see [`deserialize_toc_v2`].
    pub fn deserialize_v2xx(data: &[u8]) -> (r: Result<TableOfContents, DeserializeError>)
        ensures
            spec_deserialize_v2_outcome(data@, r),
    {
        deserialize_toc_v2(data)
    }

    /// Deserializes the v2 table of contents; see [`deserialize_toc_v2`].
    pub fn deserialize_v2xx_with_allocator(data: &[u8]) -> (r: Result<TableOfContents, DeserializeError>)
        ensures
            spec_deserialize_v2_outcome(data@, r),
    {
        deserialize_toc_v2(data)
    }
}

} // verus!
