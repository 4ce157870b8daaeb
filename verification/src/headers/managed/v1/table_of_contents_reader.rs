use crate::api::enums::compression_preference::{spec_compression_from_code, CompressionPreference};
use crate::headers::enums::table_of_contents_version::{spec_version_from_u8, TableOfContentsVersion};
use crate::headers::managed::block_size::BlockSize;
use crate::headers::managed::file_entry::FileEntry;
use crate::headers::managed::table_of_contents::{DeserializeError, TableOfContents};
use crate::headers::parser::string_pool::{
    all_utf8, lemma_string_pool_round_trip, no_zero_bytes, spec_pack_outcome, spec_unpack_outcome, StringPool,
};
use crate::headers::parser::string_pool_common::StringPoolFormat;
use crate::headers::raw::native_toc_block_entry::NativeTocBlockEntry;
use crate::headers::raw::native_toc_header::NativeTocHeader;
use crate::headers::raw::toc::v1::offset_path_index_tuple::OffsetPathIndexTuple;
use crate::utilities::bits::get_bits64;
use crate::utilities::bytes::{
    le_bytes32, le_bytes64, lemma_read_u32_where, lemma_read_u64_where, read_u32_at, read_u32_le,
    read_u64_at, read_u64_le,
};
use crate::headers::enums::table_of_contents_version::{lemma_version_round_trip, spec_version_to_u8};
use crate::headers::managed::v1::table_of_contents_builder::{
    spec_blocks_bytes, spec_entries_bytes, spec_entry_bytes, spec_serialize_toc_outcome,
    spec_table_bytes, spec_table_size, MAX_BLOCK_COUNT_V0V1, MAX_FILE_COUNT_V0V1,
};
use crate::headers::raw::native_toc_block_entry::{lemma_block_entry_fields, spec_block_entry_word};
use crate::headers::raw::native_toc_header::{lemma_native_toc_header_fields, spec_native_toc_header_word};
use crate::headers::raw::toc::v1::offset_path_index_tuple::{
    lemma_offset_path_index_fields, spec_offset_path_index_word,
};
use vstd::prelude::*;
use vstd::slice::slice_subrange;

verus! {

/// Bytes per file entry of a layout version: 20 for V0, 24 for V1.
pub open spec fn spec_layout_entry_size(version: TableOfContentsVersion) -> int {
    if version == TableOfContentsVersion::V0 {
        20
    } else {
        24
    }
}

/// The file entry whose bytes start at `pos` of `d`.
pub open spec fn spec_read_entry(d: Seq<u8>, pos: int, version: TableOfContentsVersion) -> FileEntry {
    let v0 = version == TableOfContentsVersion::V0;
    let size = if v0 { read_u32_le(d, pos + 8) as u64 } else { read_u64_le(d, pos + 8) };
    let t = if v0 { read_u64_le(d, pos + 12) } else { read_u64_le(d, pos + 16) };
    FileEntry {
        hash: read_u64_le(d, pos),
        decompressed_size: size,
        decompressed_block_offset: get_bits64(t, 38, 26) as u32,
        file_path_index: get_bits64(t, 18, 20) as u32,
        first_block_index: get_bits64(t, 0, 18) as u32,
    }
}

/// The word of the `k`-th block entry of a table whose block entries start at `pos`.
pub open spec fn spec_block_word(d: Seq<u8>, pos: int, k: int) -> u64 {
    read_u32_le(d, pos + 4 * k) as u64
}

/// The parts of a table of contents in the V0/V1 layouts: its version, file entries,
/// block sizes, block compressions, the bytes of its string pool and its file count; or
/// the error met reading them.
pub open spec fn spec_parse_toc_v1(d: Seq<u8>) -> Result<
    (TableOfContentsVersion, Seq<FileEntry>, Seq<BlockSize>, Seq<CompressionPreference>, Seq<u8>, nat),
    DeserializeError,
> {
    if d.len() < 8 {
        Err(DeserializeError::InsufficientData)
    } else {
        let w = read_u64_le(d, 0);
        match spec_version_from_u8(get_bits64(w, 62, 2) as u8) {
            Ok(version) => if version != TableOfContentsVersion::V0 && version != TableOfContentsVersion::V1 {
                Err(DeserializeError::UnsupportedTocVersion)
            } else {
                let n = get_bits64(w, 0, 20) as int;
                let b = get_bits64(w, 20, 18) as int;
                let s = get_bits64(w, 38, 24) as int;
                let blocks_pos = 8 + n * spec_layout_entry_size(version);
                let pool_pos = blocks_pos + 4 * b;
                if d.len() < pool_pos + s {
                    Err(DeserializeError::InsufficientData)
                } else if exists|k: int| 0 <= k < b && #[trigger] spec_compression_from_code(get_bits64(spec_block_word(d, blocks_pos, k), 0, 3) as u32) is None {
                    Err(DeserializeError::InvalidBlockCompression)
                } else {
                    Ok((
                        version,
                        Seq::new(n as nat, |i: int| spec_read_entry(d, 8 + i * spec_layout_entry_size(version), version)),
                        Seq::new(b as nat, |k: int| BlockSize { compressed_size: get_bits64(spec_block_word(d, blocks_pos, k), 3, 29) as u32 }),
                        Seq::new(b as nat, |k: int| spec_compression_from_code(get_bits64(spec_block_word(d, blocks_pos, k), 0, 3) as u32).unwrap()),
                        d.subrange(pool_pos, pool_pos + s),
                        n as nat,
                    ))
                }
            },
            Err(_) => Err(DeserializeError::UnsupportedTocVersion),
        }
    }
}

/// What deserializing a table of contents in the V0/V1 layouts gives: the error met
/// reading its parts, or its parts with the string pool unpacked (as
/// [`StringPool::unpack_v0`] does), or the error of unpacking the pool.
pub open spec fn spec_deserialize_toc_v1_outcome(d: Seq<u8>, r: Result<TableOfContents, DeserializeError>) -> bool {
    match spec_parse_toc_v1(d) {
        Err(e) => r == Err::<TableOfContents, DeserializeError>(e),
        Ok((version, entries, blocks, compressions, pool, n)) => match r {
            Ok(toc) => {
                &&& toc.version == version
                &&& toc.entries@ == entries
                &&& toc.blocks@ == blocks
                &&& toc.block_compressions@ == compressions
                &&& spec_unpack_outcome(StringPoolFormat::V0, pool, n as usize, Ok(toc.pool))
            },
            Err(DeserializeError::StringPoolUnpackError(e)) => spec_unpack_outcome(StringPoolFormat::V0, pool, n as usize, Err(e)),
            Err(_) => false,
        },
    }
}

/// Reads the file entry at `pos`.
fn read_entry(d: &[u8], pos: usize, version: TableOfContentsVersion) -> (r: FileEntry)
    requires
        pos + spec_layout_entry_size(version) <= d@.len(),
    ensures
        r == spec_read_entry(d@, pos as int, version),
{
    let _len = d.len();
    let hash = read_u64_at(d, pos);
    let (size, t) = if version == TableOfContentsVersion::V0 {
        (read_u32_at(d, pos + 8) as u64, read_u64_at(d, pos + 12))
    } else {
        (read_u64_at(d, pos + 8), read_u64_at(d, pos + 16))
    };
    let tuple = OffsetPathIndexTuple(t);
    FileEntry {
        hash,
        decompressed_size: size,
        decompressed_block_offset: tuple.decompressed_block_offset(),
        file_path_index: tuple.file_path_index(),
        first_block_index: tuple.first_block_index(),
    }
}

/// Deserializes a table of contents in the V0 or V1 layout from `data`, which starts with
/// the table's header and may be longer than the table.
///
/// # Errors
/// * `UnsupportedTocVersion` when the header declares another version.
/// * `InsufficientData` when the data is shorter than the table it declares.
/// * `InvalidBlockCompression` when a block declares a compression that does not exist.
/// * `StringPoolUnpackError` when the string pool does not unpack.
#[verifier::loop_isolation(false)]
pub fn deserialize_toc_v1(data: &[u8]) -> (r: Result<TableOfContents, DeserializeError>)
    ensures
        spec_deserialize_toc_v1_outcome(data@, r),
{
    if data.len() < 8 {
        return Err(DeserializeError::InsufficientData);
    }
    let header = NativeTocHeader(read_u64_at(data, 0));
    let version = match TableOfContentsVersion::try_from_u8(header.version()) {
        Ok(v) => v,
        Err(_) => {
            return Err(DeserializeError::UnsupportedTocVersion);
        },
    };
    match version {
        TableOfContentsVersion::V0 | TableOfContentsVersion::V1 => {},
        _ => {
            return Err(DeserializeError::UnsupportedTocVersion);
        },
    }
    let n = header.file_count() as usize;
    let b = header.block_count() as usize;
    let s = header.string_pool_size() as usize;
    proof {
        vstd::arithmetic::power2::lemma2_to64();
        crate::utilities::bits::lemma_get_bits_bound64(header.0, 0, 20);
        crate::utilities::bits::lemma_get_bits_bound64(header.0, 20, 18);
        crate::utilities::bits::lemma_get_bits_bound64(header.0, 38, 24);
        crate::utilities::bits::lemma_mask64_is(20, 0xf_ffff);
        crate::utilities::bits::lemma_mask64_is(18, 0x3_ffff);
        crate::utilities::bits::lemma_mask64_is(24, 0xff_ffff);
    }
    let entry_size: usize = if version == TableOfContentsVersion::V0 { 20 } else { 24 };
    let blocks_pos = 8 + n * entry_size;
    let pool_pos = blocks_pos + 4 * b;
    if data.len() < pool_pos || data.len() - pool_pos < s {
        return Err(DeserializeError::InsufficientData);
    }
    let mut entries: Vec<FileEntry> = Vec::new();
    let mut i: usize = 0;
    while i < n
        invariant
            i <= n,
            entries@ == Seq::new(i as nat, |j: int| spec_read_entry(data@, 8 + j * spec_layout_entry_size(version), version)),
        decreases n - i,
    {
        proof {
            assert(8 + i * entry_size + entry_size <= blocks_pos) by (nonlinear_arith)
                requires i < n, blocks_pos == 8 + n * entry_size;
        }
        let e = read_entry(data, 8 + i * entry_size, version);
        entries.push(e);
        proof {
            assert(entries@ =~= Seq::new((i + 1) as nat, |j: int| spec_read_entry(data@, 8 + j * spec_layout_entry_size(version), version)));
        }
        i = i + 1;
    }
    let mut blocks: Vec<BlockSize> = Vec::new();
    let mut compressions: Vec<CompressionPreference> = Vec::new();
    let mut k: usize = 0;
    while k < b
        invariant
            k <= b,
            blocks@ == Seq::new(k as nat, |j: int| BlockSize { compressed_size: get_bits64(spec_block_word(data@, blocks_pos as int, j), 3, 29) as u32 }),
            compressions@ == Seq::new(k as nat, |j: int| spec_compression_from_code(get_bits64(spec_block_word(data@, blocks_pos as int, j), 0, 3) as u32).unwrap()),
            forall|j: int| 0 <= j < k ==> #[trigger] spec_compression_from_code(get_bits64(spec_block_word(data@, blocks_pos as int, j), 0, 3) as u32) is Some,
        decreases b - k,
    {
        let entry = NativeTocBlockEntry(read_u32_at(data, blocks_pos + 4 * k));
        let compression = match entry.try_compression() {
            Some(c) => c,
            None => {
                assert(spec_compression_from_code(get_bits64(spec_block_word(data@, blocks_pos as int, k as int), 0, 3) as u32) is None);
                return Err(DeserializeError::InvalidBlockCompression);
            },
        };
        blocks.push(BlockSize::new(entry.compressed_block_size()));
        compressions.push(compression);
        proof {
            assert(blocks@ =~= Seq::new((k + 1) as nat, |j: int| BlockSize { compressed_size: get_bits64(spec_block_word(data@, blocks_pos as int, j), 3, 29) as u32 }));
            assert(compressions@ =~= Seq::new((k + 1) as nat, |j: int| spec_compression_from_code(get_bits64(spec_block_word(data@, blocks_pos as int, j), 0, 3) as u32).unwrap()));
        }
        k = k + 1;
    }
    let pool_data = slice_subrange(data, pool_pos, pool_pos + s);
    match StringPool::unpack_v0(pool_data, n) {
        Ok(pool) => Ok(TableOfContents { block_compressions: compressions, blocks, entries, pool, version }),
        Err(e) => Err(DeserializeError::StringPoolUnpackError(e)),
    }
}

/// The fields of a file entry fit the layout of `version`.
pub open spec fn entry_fits_layout(e: FileEntry, version: TableOfContentsVersion) -> bool {
    &&& e.decompressed_block_offset < 0x400_0000
    &&& e.file_path_index < 0x10_0000
    &&& e.first_block_index < 0x4_0000
    &&& version == TableOfContentsVersion::V0 ==> e.decompressed_size <= u32::MAX
}

/// The serialized entries take the entry size per entry.
proof fn lemma_entries_bytes_len(entries: Seq<FileEntry>, version: TableOfContentsVersion)
    ensures
        spec_entries_bytes(entries, version).len() == entries.len() * spec_layout_entry_size(version),
    decreases entries.len(),
{
    if entries.len() > 0 {
        lemma_entries_bytes_len(entries.drop_last(), version);
        assert((entries.len() - 1) * spec_layout_entry_size(version) + spec_layout_entry_size(version)
            == entries.len() * spec_layout_entry_size(version)) by (nonlinear_arith);
    }
}

/// Entry `i` lies at its place among the serialized entries.
proof fn lemma_entries_bytes_at(entries: Seq<FileEntry>, version: TableOfContentsVersion, i: int)
    requires
        0 <= i < entries.len(),
    ensures
        spec_entries_bytes(entries, version).subrange(i * spec_layout_entry_size(version), i * spec_layout_entry_size(version) + spec_layout_entry_size(version))
            == spec_entry_bytes(entries[i], version),
    decreases entries.len(),
{
    let es = spec_layout_entry_size(version);
    let dl = entries.drop_last();
    lemma_entries_bytes_len(dl, version);
    if i == entries.len() - 1 {
        assert(spec_entries_bytes(entries, version).subrange(i * es, i * es + es) =~= spec_entry_bytes(entries[i], version));
    } else {
        lemma_entries_bytes_at(dl, version, i);
        assert(i * es + es <= dl.len() * es) by (nonlinear_arith)
            requires i < dl.len(), es > 0;
        assert(spec_entries_bytes(entries, version).subrange(i * es, i * es + es) =~= spec_entries_bytes(dl, version).subrange(i * es, i * es + es));
    }
}

/// The serialized blocks take four bytes per block.
proof fn lemma_blocks_bytes_len(blocks: Seq<BlockSize>, compressions: Seq<CompressionPreference>)
    ensures
        spec_blocks_bytes(blocks, compressions).len() == 4 * blocks.len(),
    decreases blocks.len(),
{
    if blocks.len() > 0 {
        lemma_blocks_bytes_len(blocks.drop_last(), compressions);
    }
}

/// Block `k` lies at its place among the serialized blocks.
proof fn lemma_blocks_bytes_at(blocks: Seq<BlockSize>, compressions: Seq<CompressionPreference>, k: int)
    requires
        0 <= k < blocks.len(),
    ensures
        spec_blocks_bytes(blocks, compressions).subrange(4 * k, 4 * k + 4)
            == le_bytes32(spec_block_entry_word(blocks[k].compressed_size, compressions[k]) as u32),
    decreases blocks.len(),
{
    let dl = blocks.drop_last();
    lemma_blocks_bytes_len(dl, compressions);
    if k == blocks.len() - 1 {
        assert(spec_blocks_bytes(blocks, compressions).subrange(4 * k, 4 * k + 4)
            =~= le_bytes32(spec_block_entry_word(blocks[k].compressed_size, compressions[k]) as u32));
    } else {
        lemma_blocks_bytes_at(dl, compressions, k);
        assert(spec_blocks_bytes(blocks, compressions).subrange(4 * k, 4 * k + 4)
            =~= spec_blocks_bytes(dl, compressions).subrange(4 * k, 4 * k + 4));
    }
}

/// Reading an entry where it was serialized gives it back.
proof fn lemma_read_entry_back(d: Seq<u8>, pos: int, e: FileEntry, version: TableOfContentsVersion)
    requires
        0 <= pos,
        pos + spec_layout_entry_size(version) <= d.len(),
        d.subrange(pos, pos + spec_layout_entry_size(version)) == spec_entry_bytes(e, version),
        entry_fits_layout(e, version),
    ensures
        spec_read_entry(d, pos, version) == e,
{
    let t = spec_offset_path_index_word(e.decompressed_block_offset, e.file_path_index, e.first_block_index);
    lemma_offset_path_index_fields(e.decompressed_block_offset, e.file_path_index, e.first_block_index);
    let b = spec_entry_bytes(e, version);
    assert(d.subrange(pos, pos + 8) =~= b.subrange(0, 8));
    assert(b.subrange(0, 8) =~= le_bytes64(e.hash));
    lemma_read_u64_where(d, pos, e.hash);
    if version == TableOfContentsVersion::V0 {
        assert(b.subrange(8, 12) =~= le_bytes32(e.decompressed_size as u32));
        assert(d.subrange(pos + 8, pos + 12) =~= b.subrange(8, 12));
        lemma_read_u32_where(d, pos + 8, e.decompressed_size as u32);
        assert(b.subrange(12, 20) =~= le_bytes64(t));
        assert(d.subrange(pos + 12, pos + 20) =~= b.subrange(12, 20));
        lemma_read_u64_where(d, pos + 12, t);
    } else {
        assert(b.subrange(8, 16) =~= le_bytes64(e.decompressed_size));
        assert(d.subrange(pos + 8, pos + 16) =~= b.subrange(8, 16));
        lemma_read_u64_where(d, pos + 8, e.decompressed_size);
        assert(b.subrange(16, 24) =~= le_bytes64(t));
        assert(d.subrange(pos + 16, pos + 24) =~= b.subrange(16, 24));
        lemma_read_u64_where(d, pos + 16, t);
    }
}

/// Reading a block entry where it was serialized gives back its size and compression.
proof fn lemma_read_block_back(d: Seq<u8>, pos: int, block: BlockSize, compression: CompressionPreference)
    requires
        0 <= pos,
        pos + 4 <= d.len(),
        d.subrange(pos, pos + 4) == le_bytes32(spec_block_entry_word(block.compressed_size, compression) as u32),
        compression != CompressionPreference::NoPreference,
        block.compressed_size < 0x2000_0000,
    ensures
        spec_compression_from_code(get_bits64(spec_block_word(d, pos, 0), 0, 3) as u32) == Some(compression),
        get_bits64(spec_block_word(d, pos, 0), 3, 29) as u32 == block.compressed_size,
{
    let w = spec_block_entry_word(block.compressed_size, compression);
    assert(get_bits64(w, 32, 32) == 0) by {
        broadcast use crate::utilities::bits::group_bit_fields;
    }
    crate::utilities::bits::lemma_upper_half_clear64(w);
    lemma_read_u32_where(d, pos, w as u32);
    lemma_block_entry_fields(block.compressed_size, compression);
}

/// Reading the serialized entries gives them back.
proof fn lemma_read_entries_back(d: Seq<u8>, entries: Seq<FileEntry>, version: TableOfContentsVersion)
    requires
        8 + entries.len() * spec_layout_entry_size(version) <= d.len(),
        d.subrange(8, 8 + entries.len() * spec_layout_entry_size(version)) == spec_entries_bytes(entries, version),
        forall|i: int| 0 <= i < entries.len() ==> entry_fits_layout(#[trigger] entries[i], version),
    ensures
        forall|i: int| 0 <= i < entries.len() ==> #[trigger] spec_read_entry(d, 8 + i * spec_layout_entry_size(version), version) == entries[i],
{
    let es = spec_layout_entry_size(version);
    let n = entries.len() as int;
    let eb = spec_entries_bytes(entries, version);
    assert forall|i: int| 0 <= i < n implies #[trigger] spec_read_entry(d, 8 + i * es, version) == entries[i] by {
        lemma_entries_bytes_at(entries, version, i);
        assert(i * es + es <= n * es) by (nonlinear_arith)
            requires i < n, es > 0;
        assert(d.subrange(8 + i * es, 8 + i * es + es) =~= eb.subrange(i * es, i * es + es));
        lemma_read_entry_back(d, 8 + i * es, entries[i], version);
    }
}

/// Reading the serialized block entries gives back the sizes and compressions.
proof fn lemma_read_blocks_back(d: Seq<u8>, blocks_pos: int, blocks: Seq<BlockSize>, compressions: Seq<CompressionPreference>)
    requires
        0 <= blocks_pos,
        blocks_pos + 4 * blocks.len() <= d.len(),
        d.subrange(blocks_pos, blocks_pos + 4 * blocks.len()) == spec_blocks_bytes(blocks, compressions),
        compressions.len() == blocks.len(),
        forall|k: int| 0 <= k < blocks.len() ==> #[trigger] compressions[k] != CompressionPreference::NoPreference,
        forall|k: int| 0 <= k < blocks.len() ==> #[trigger] blocks[k].compressed_size < 0x2000_0000,
    ensures
        forall|k: int| 0 <= k < blocks.len() ==>
            #[trigger] spec_compression_from_code(get_bits64(spec_block_word(d, blocks_pos, k), 0, 3) as u32) == Some(compressions[k]),
        forall|k: int| 0 <= k < blocks.len() ==>
            #[trigger] get_bits64(spec_block_word(d, blocks_pos, k), 3, 29) as u32 == blocks[k].compressed_size,
{
    let bb = spec_blocks_bytes(blocks, compressions);
    assert forall|k: int| 0 <= k < blocks.len() implies
        #[trigger] spec_compression_from_code(get_bits64(spec_block_word(d, blocks_pos, k), 0, 3) as u32) == Some(compressions[k]) by {
        lemma_read_block_at(d, blocks_pos, blocks, compressions, k);
    }
    assert forall|k: int| 0 <= k < blocks.len() implies
        #[trigger] get_bits64(spec_block_word(d, blocks_pos, k), 3, 29) as u32 == blocks[k].compressed_size by {
        lemma_read_block_at(d, blocks_pos, blocks, compressions, k);
    }
}

/// Reading block entry `k` gives back its size and compression.
proof fn lemma_read_block_at(d: Seq<u8>, blocks_pos: int, blocks: Seq<BlockSize>, compressions: Seq<CompressionPreference>, k: int)
    requires
        0 <= blocks_pos,
        0 <= k < blocks.len(),
        blocks_pos + 4 * blocks.len() <= d.len(),
        d.subrange(blocks_pos, blocks_pos + 4 * blocks.len()) == spec_blocks_bytes(blocks, compressions),
        compressions.len() == blocks.len(),
        compressions[k] != CompressionPreference::NoPreference,
        blocks[k].compressed_size < 0x2000_0000,
    ensures
        spec_compression_from_code(get_bits64(spec_block_word(d, blocks_pos, k), 0, 3) as u32) == Some(compressions[k]),
        get_bits64(spec_block_word(d, blocks_pos, k), 3, 29) as u32 == blocks[k].compressed_size,
{
    let bb = spec_blocks_bytes(blocks, compressions);
    lemma_blocks_bytes_at(blocks, compressions, k);
    lemma_blocks_bytes_len(blocks, compressions);
    assert(d.subrange(blocks_pos + 4 * k, blocks_pos + 4 * k + 4) =~= bb.subrange(4 * k, 4 * k + 4));
    lemma_read_block_back(d, blocks_pos + 4 * k, blocks[k], compressions[k]);
    assert(spec_block_word(d, blocks_pos + 4 * k, 0) == spec_block_word(d, blocks_pos, k));
}

/// Where the parts of the serialized table of contents lie.
proof fn lemma_table_layout(
    compressions: Seq<CompressionPreference>,
    blocks: Seq<BlockSize>,
    entries: Seq<FileEntry>,
    version: TableOfContentsVersion,
    pool: Seq<u8>,
)
    ensures
        ({
            let d = spec_table_bytes(compressions, blocks, entries, version, pool);
            let es = spec_layout_entry_size(version);
            let n = entries.len() as int;
            let blocks_pos = 8 + n * es;
            let pool_pos = blocks_pos + 4 * blocks.len();
            &&& d.len() == pool_pos + pool.len()
            &&& d.subrange(0, 8) == le_bytes64(spec_native_toc_header_word(n as u32, blocks.len() as u32, pool.len() as u32, spec_version_to_u8(version)))
            &&& d.subrange(8, blocks_pos) == spec_entries_bytes(entries, version)
            &&& d.subrange(blocks_pos, pool_pos) == spec_blocks_bytes(blocks, compressions)
            &&& d.subrange(pool_pos, pool_pos + pool.len()) == pool
        }),
{
    reveal(spec_table_bytes);
    let d = spec_table_bytes(compressions, blocks, entries, version, pool);
    let es = spec_layout_entry_size(version);
    let n = entries.len() as int;
    let blocks_pos = 8 + n * es;
    let pool_pos = blocks_pos + 4 * blocks.len();
    lemma_entries_bytes_len(entries, version);
    lemma_blocks_bytes_len(blocks, compressions);
    assert(d.subrange(0, 8) =~= le_bytes64(spec_native_toc_header_word(n as u32, blocks.len() as u32, pool.len() as u32, spec_version_to_u8(version))));
    assert(d.subrange(8, blocks_pos) =~= spec_entries_bytes(entries, version));
    assert(d.subrange(blocks_pos, pool_pos) =~= spec_blocks_bytes(blocks, compressions));
    assert(d.subrange(pool_pos, pool_pos + pool.len()) =~= pool);
}

/// Reading the serialized table of contents gives back its parts, when they fit the
/// layout.
#[verifier::spinoff_prover]
proof fn lemma_parse_table_bytes(
    compressions: Seq<CompressionPreference>,
    blocks: Seq<BlockSize>,
    entries: Seq<FileEntry>,
    version: TableOfContentsVersion,
    pool: Seq<u8>,
)
    requires
        version == TableOfContentsVersion::V0 || version == TableOfContentsVersion::V1,
        blocks.len() <= MAX_BLOCK_COUNT_V0V1,
        entries.len() <= MAX_FILE_COUNT_V0V1,
        compressions.len() == blocks.len(),
        forall|k: int| 0 <= k < blocks.len() ==> #[trigger] compressions[k] != CompressionPreference::NoPreference,
        forall|k: int| 0 <= k < blocks.len() ==> #[trigger] blocks[k].compressed_size < 0x2000_0000,
        forall|i: int| 0 <= i < entries.len() ==> entry_fits_layout(#[trigger] entries[i], version),
        pool.len() < 0x100_0000,
    ensures
        spec_parse_toc_v1(spec_table_bytes(compressions, blocks, entries, version, pool))
            == Ok::<(TableOfContentsVersion, Seq<FileEntry>, Seq<BlockSize>, Seq<CompressionPreference>, Seq<u8>, nat), DeserializeError>(
                (version, entries, blocks, compressions, pool, entries.len())),
{
    let d = spec_table_bytes(compressions, blocks, entries, version, pool);
    let es = spec_layout_entry_size(version);
    let n = entries.len() as int;
    let b = blocks.len() as int;
    let hw = spec_native_toc_header_word(n as u32, b as u32, pool.len() as u32, spec_version_to_u8(version));
    lemma_table_layout(compressions, blocks, entries, version, pool);
    lemma_read_u64_where(d, 0, hw);
    lemma_native_toc_header_fields(n as u32, b as u32, pool.len() as u32, spec_version_to_u8(version));
    lemma_version_round_trip(version);
    let blocks_pos = 8 + n * es;
    lemma_read_entries_back(d, entries, version);
    lemma_read_blocks_back(d, blocks_pos, blocks, compressions);
    assert(Seq::new(n as nat, |i: int| spec_read_entry(d, 8 + i * es, version)) =~= entries);
    assert(Seq::new(b as nat, |k: int| BlockSize { compressed_size: get_bits64(spec_block_word(d, blocks_pos, k), 3, 29) as u32 }) =~= blocks);
    assert(Seq::new(b as nat, |k: int| spec_compression_from_code(get_bits64(spec_block_word(d, blocks_pos, k), 0, 3) as u32).unwrap()) =~= compressions);
}

/// Deserializing a serialized table of contents gives back its version, file entries,
/// block sizes and block compressions, and the string pool as unpacking its bytes gives
/// it (or the error of unpacking them); no other error can come.
///
/// This holds when the parts fit the layout: V0 or V1, counts within the limits, each
/// entry's fields within their widths (and sizes within 32 bits for V0), block sizes
/// within 29 bits, a compression for every block, and a pool under 16 MiB.
pub proof fn lemma_toc_v1_round_trip(
    compressions: Seq<CompressionPreference>,
    blocks: Seq<BlockSize>,
    entries: Seq<FileEntry>,
    version: TableOfContentsVersion,
    pool: Seq<u8>,
    serialized: Vec<u8>,
    r: Result<TableOfContents, DeserializeError>,
)
    requires
        version == TableOfContentsVersion::V0 || version == TableOfContentsVersion::V1,
        compressions.len() == blocks.len(),
        forall|k: int| 0 <= k < blocks.len() ==> #[trigger] compressions[k] != CompressionPreference::NoPreference,
        forall|k: int| 0 <= k < blocks.len() ==> #[trigger] blocks[k].compressed_size < 0x2000_0000,
        forall|i: int| 0 <= i < entries.len() ==> entry_fits_layout(#[trigger] entries[i], version),
        pool.len() < 0x100_0000,
        spec_serialize_toc_outcome(compressions, blocks, entries, version, pool, Ok(serialized)),
        spec_deserialize_toc_v1_outcome(serialized@, r),
    ensures
        match r {
            Ok(toc) => {
                &&& toc.version == version
                &&& toc.entries@ == entries
                &&& toc.blocks@ == blocks
                &&& toc.block_compressions@ == compressions
                &&& spec_unpack_outcome(StringPoolFormat::V0, pool, entries.len() as usize, Ok(toc.pool))
            },
            Err(DeserializeError::StringPoolUnpackError(e)) => spec_unpack_outcome(StringPoolFormat::V0, pool, entries.len() as usize, Err(e)),
            Err(_) => false,
        },
{
    lemma_parse_table_bytes(compressions, blocks, entries, version, pool);
}

/// The serialized table takes the size that [`calculate_table_size`] gives.
///
/// [`calculate_table_size`]: crate::headers::managed::v1::table_of_contents_builder::calculate_table_size
pub proof fn lemma_toc_v1_table_size(
    compressions: Seq<CompressionPreference>,
    blocks: Seq<BlockSize>,
    entries: Seq<FileEntry>,
    version: TableOfContentsVersion,
    pool: Seq<u8>,
)
    requires
        version == TableOfContentsVersion::V0 || version == TableOfContentsVersion::V1,
    ensures
        spec_table_bytes(compressions, blocks, entries, version, pool).len()
            == spec_table_size(entries.len() as int, blocks.len() as int, pool.len() as int, version),
{
    lemma_table_layout(compressions, blocks, entries, version, pool);
}

/// Where each field of a file entry lies in a serialized table of contents: after the 8
/// byte header, file entry `i` starts at byte `8 + 20 * i` in the V0 layout and
/// `8 + 24 * i` in the V1 layout. It holds the hash in its first 8 bytes, then the size
/// (4 bytes in V0, truncated to 32 bits; 8 bytes in V1), then an 8 byte word that holds
/// the offset in the block in bits 38-63, the path index in bits 18-37 and the first
/// block index in bits 0-17, each truncated to its field. All values are little endian.
pub proof fn lemma_toc_v1_entry_layout(
    compressions: Seq<CompressionPreference>,
    blocks: Seq<BlockSize>,
    entries: Seq<FileEntry>,
    version: TableOfContentsVersion,
    pool: Seq<u8>,
    serialized: Vec<u8>,
    i: int,
)
    requires
        0 <= i < entries.len(),
        spec_serialize_toc_outcome(compressions, blocks, entries, version, pool, Ok(serialized)),
    ensures
        ({
            let d = serialized@;
            let e = entries[i];
            let v0 = version == TableOfContentsVersion::V0;
            let pos = if v0 { 8 + 20 * i } else { 8 + 24 * i };
            let t = if v0 { read_u64_le(d, pos + 12) } else { read_u64_le(d, pos + 16) };
            &&& version == TableOfContentsVersion::V0 || version == TableOfContentsVersion::V1
            &&& pos + (if v0 { 20int } else { 24int }) <= d.len()
            &&& read_u64_le(d, pos) == e.hash
            &&& v0 ==> read_u32_le(d, pos + 8) == e.decompressed_size as u32
            &&& !v0 ==> read_u64_le(d, pos + 8) == e.decompressed_size
            &&& get_bits64(t, 38, 26) == e.decompressed_block_offset as u64 % 0x400_0000
            &&& get_bits64(t, 18, 20) == e.file_path_index as u64 % 0x10_0000
            &&& get_bits64(t, 0, 18) == e.first_block_index as u64 % 0x4_0000
        }),
{
    let d = serialized@;
    let e = entries[i];
    let es = spec_layout_entry_size(version);
    let n = entries.len() as int;
    lemma_table_layout(compressions, blocks, entries, version, pool);
    lemma_entries_bytes_len(entries, version);
    lemma_entries_bytes_at(entries, version, i);
    assert(i * es + es <= n * es) by (nonlinear_arith)
        requires i < n, es > 0;
    let pos = 8 + i * es;
    let b = spec_entry_bytes(e, version);
    assert(d.subrange(pos, pos + es) =~= b) by {
        assert(d.subrange(pos, pos + es) =~= d.subrange(8, 8 + n * es).subrange(i * es, i * es + es));
    }
    let t = spec_offset_path_index_word(e.decompressed_block_offset, e.file_path_index, e.first_block_index);
    lemma_offset_path_index_fields(e.decompressed_block_offset, e.file_path_index, e.first_block_index);
    assert(d.subrange(pos, pos + 8) =~= b.subrange(0, 8));
    assert(b.subrange(0, 8) =~= le_bytes64(e.hash));
    lemma_read_u64_where(d, pos, e.hash);
    if version == TableOfContentsVersion::V0 {
        assert(b.subrange(8, 12) =~= le_bytes32(e.decompressed_size as u32));
        assert(d.subrange(pos + 8, pos + 12) =~= b.subrange(8, 12));
        lemma_read_u32_where(d, pos + 8, e.decompressed_size as u32);
        assert(b.subrange(12, 20) =~= le_bytes64(t));
        assert(d.subrange(pos + 12, pos + 20) =~= b.subrange(12, 20));
        lemma_read_u64_where(d, pos + 12, t);
    } else {
        assert(b.subrange(8, 16) =~= le_bytes64(e.decompressed_size));
        assert(d.subrange(pos + 8, pos + 16) =~= b.subrange(8, 16));
        lemma_read_u64_where(d, pos + 8, e.decompressed_size);
        assert(b.subrange(16, 24) =~= le_bytes64(t));
        assert(d.subrange(pos + 16, pos + 24) =~= b.subrange(16, 24));
        lemma_read_u64_where(d, pos + 16, t);
    }
}

/// Where the parts of a serialized table of contents lie: the 8 byte header word first,
/// then the file entries (20 bytes each in V0, 24 in V1), then one 4 byte word per block,
/// then the string pool, which ends the table. The header holds the file count in bits
/// 0-19, the block count in bits 20-37, the string pool size in bits 38-61 and the
/// version (0 or 1) in bits 62-63; a block word holds the compression code in bits 0-2
/// and the compressed size in bits 3-31. Counts and sizes are truncated to their fields
/// (the pool size first to 32 bits); all values are little endian.
pub proof fn lemma_toc_v1_sections_layout(
    compressions: Seq<CompressionPreference>,
    blocks: Seq<BlockSize>,
    entries: Seq<FileEntry>,
    version: TableOfContentsVersion,
    pool: Seq<u8>,
    serialized: Vec<u8>,
)
    requires
        spec_serialize_toc_outcome(compressions, blocks, entries, version, pool, Ok(serialized)),
    ensures
        ({
            let d = serialized@;
            let n = entries.len() as int;
            let blocks_pos = if version == TableOfContentsVersion::V0 { 8 + 20 * n } else { 8 + 24 * n };
            let pool_pos = blocks_pos + 4 * blocks.len();
            let h = read_u64_le(d, 0);
            &&& d.len() == pool_pos + pool.len()
            &&& get_bits64(h, 0, 20) == entries.len() % 0x10_0000
            &&& get_bits64(h, 20, 18) == blocks.len() % 0x4_0000
            &&& get_bits64(h, 38, 24) == (pool.len() as u32) as u64 % 0x100_0000
            &&& get_bits64(h, 62, 2) == (if version == TableOfContentsVersion::V0 { 0u64 } else { 1u64 })
            &&& forall|k: int| 0 <= k < blocks.len() && k < compressions.len() && compressions[k] != CompressionPreference::NoPreference ==> {
                let w = #[trigger] read_u32_le(d, blocks_pos + 4 * k) as u64;
                &&& get_bits64(w, 3, 29) == blocks[k].compressed_size as u64 % 0x2000_0000
                &&& spec_compression_from_code(get_bits64(w, 0, 3) as u32) == Some(compressions[k])
            }
            &&& d.subrange(pool_pos, d.len() as int) == pool
        }),
{
    let d = serialized@;
    let es = spec_layout_entry_size(version);
    let n = entries.len() as int;
    let blocks_pos = 8 + n * es;
    let pool_pos = blocks_pos + 4 * blocks.len();
    lemma_table_layout(compressions, blocks, entries, version, pool);
    lemma_blocks_bytes_len(blocks, compressions);
    assert(n * es == es * n) by (nonlinear_arith);
    let hw = spec_native_toc_header_word(n as u32, blocks.len() as u32, pool.len() as u32, spec_version_to_u8(version));
    lemma_read_u64_where(d, 0, hw);
    lemma_native_toc_header_fields(n as u32, blocks.len() as u32, pool.len() as u32, spec_version_to_u8(version));
    let bb = spec_blocks_bytes(blocks, compressions);
    assert forall|k: int| 0 <= k < blocks.len() && k < compressions.len() && compressions[k] != CompressionPreference::NoPreference implies {
        let w = #[trigger] read_u32_le(d, blocks_pos + 4 * k) as u64;
        &&& get_bits64(w, 3, 29) == blocks[k].compressed_size as u64 % 0x2000_0000
        &&& spec_compression_from_code(get_bits64(w, 0, 3) as u32) == Some(compressions[k])
    } by {
        lemma_blocks_bytes_at(blocks, compressions, k);
        assert(d.subrange(blocks_pos + 4 * k, blocks_pos + 4 * k + 4) =~= bb.subrange(4 * k, 4 * k + 4));
        let w = spec_block_entry_word(blocks[k].compressed_size, compressions[k]);
        assert(get_bits64(w, 32, 32) == 0) by {
            broadcast use crate::utilities::bits::group_bit_fields;
        }
        crate::utilities::bits::lemma_upper_half_clear64(w);
        lemma_read_u32_where(d, blocks_pos + 4 * k, w as u32);
        lemma_block_entry_fields(blocks[k].compressed_size, compressions[k]);
    }
}

/// What a table of contents in the V0/V1 layouts holds comes back when it is read: the
/// version, the block sizes and compressions, the file entries, and the file paths packed
/// into its string pool.
///
/// This holds for parts that fit the layout (see [`lemma_toc_v1_round_trip`]), one path
/// per entry, each valid UTF-8 without zero bytes.
pub proof fn lemma_toc_v1_paths_round_trip(
    compressions: Seq<CompressionPreference>,
    blocks: Seq<BlockSize>,
    entries: Seq<FileEntry>,
    version: TableOfContentsVersion,
    paths: Seq<Seq<u8>>,
    pool: Vec<u8>,
    serialized: Vec<u8>,
    r: Result<TableOfContents, DeserializeError>,
)
    requires
        version == TableOfContentsVersion::V0 || version == TableOfContentsVersion::V1,
        compressions.len() == blocks.len(),
        forall|k: int| 0 <= k < blocks.len() ==> #[trigger] compressions[k] != CompressionPreference::NoPreference,
        forall|k: int| 0 <= k < blocks.len() ==> #[trigger] blocks[k].compressed_size < 0x2000_0000,
        forall|i: int| 0 <= i < entries.len() ==> entry_fits_layout(#[trigger] entries[i], version),
        pool@.len() < 0x100_0000,
        all_utf8(paths),
        no_zero_bytes(paths),
        paths.len() == entries.len(),
        spec_pack_outcome(StringPoolFormat::V0, paths, Ok(pool)),
        spec_serialize_toc_outcome(compressions, blocks, entries, version, pool@, Ok(serialized)),
        spec_deserialize_toc_v1_outcome(serialized@, r),
    ensures
        r matches Ok(toc) && {
            &&& toc.version == version
            &&& toc.entries@ == entries
            &&& toc.blocks@ == blocks
            &&& toc.block_compressions@ == compressions
            &&& toc.pool@ == paths
        },
{
    lemma_toc_v1_round_trip(compressions, blocks, entries, version, pool@, serialized, r);
    match r {
        Ok(toc) => {
            lemma_string_pool_round_trip(StringPoolFormat::V0, paths, pool, Ok(toc.pool));
        },
        Err(DeserializeError::StringPoolUnpackError(e)) => {
            lemma_string_pool_round_trip(StringPoolFormat::V0, paths, pool, Err(e));
        },
        Err(_) => {},
    }
}

impl TableOfContents {
    /// Deserializes the table of contents in the V0/V1 layouts; see [`deserialize_toc_v1`].
    pub fn deserialize_v1xx(data: &[u8]) -> (r: Result<TableOfContents, DeserializeError>)
        ensures
            spec_deserialize_toc_v1_outcome(data@, r),
    {
        deserialize_toc_v1(data)
    }

    /// Deserializes the table of contents in the V0/V1 layouts; see [`deserialize_toc_v1`].
    pub fn deserialize_v1xx_with_allocator(data: &[u8]) -> (r: Result<TableOfContents, DeserializeError>)
        ensures
            spec_deserialize_toc_v1_outcome(data@, r),
    {
        deserialize_toc_v1(data)
    }

    /// Deserializes the table of contents whose header declares V0 or V1; see
    /// [`deserialize_toc_v1`].
    pub fn deserialize(data: &[u8]) -> (r: Result<TableOfContents, DeserializeError>)
        ensures
            spec_deserialize_toc_v1_outcome(data@, r),
    {
        deserialize_toc_v1(data)
    }

    /// Deserializes the table of contents whose header declares V0 or V1; see
    /// [`deserialize_toc_v1`].
    pub fn deserialize_with_allocator(data: &[u8]) -> (r: Result<TableOfContents, DeserializeError>)
        ensures
            spec_deserialize_toc_v1_outcome(data@, r),
    {
        deserialize_toc_v1(data)
    }
}

} // verus!
