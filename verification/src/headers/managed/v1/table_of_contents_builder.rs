use crate::api::enums::compression_preference::CompressionPreference;
use crate::api::traits::has_file_size::HasFileSize;
use crate::api::traits::has_relative_path::HasRelativePath;
use crate::headers::enums::table_of_contents_version::{spec_version_to_u8, TableOfContentsVersion};
use crate::headers::managed::block_size::BlockSize;
use crate::headers::managed::file_entry::FileEntry;
use crate::headers::parser::path_order::{lemma_sorted_paths_unique, paths_sorted, relative_paths};
use crate::headers::parser::string_pool::{all_utf8, spec_pack_outcome, StringPool};
use crate::headers::parser::string_pool::append_bytes;
use crate::headers::parser::string_pool_common::{StringPoolFormat, StringPoolPackError};
use crate::headers::raw::native_toc_block_entry::{spec_block_entry_word, NativeTocBlockEntry};
use crate::headers::raw::native_toc_header::{spec_native_toc_header_word, NativeTocHeader};
use crate::headers::raw::toc::v1::offset_path_index_tuple::{
    spec_offset_path_index_word, OffsetPathIndexTuple,
};
use crate::utilities::bytes::{le_bytes32, le_bytes64, push_u32_le, push_u64_le};
use vstd::prelude::*;

verus! {

/// Largest number of blocks of the V0 and V1 layouts (`u18`).
pub const MAX_BLOCK_COUNT_V0V1: usize = 262143;

/// Largest number of files of the V0 and V1 layouts (`u20`).
pub const MAX_FILE_COUNT_V0V1: usize = 1048575;

/// The layout version and whether any file is larger than a chunk.
#[derive(Debug, Clone, Copy, PartialEq, Eq, Structural)]
pub struct VersionInfo {
    /// The determined version of the Table of Contents.
    pub version: TableOfContentsVersion,
    /// Indicates whether any block can create chunks.
    pub can_create_chunks: bool,
}

/// Errors that can occur when serializing the table of contents.
#[derive(Debug, PartialEq, Eq, Clone, Copy, Structural)]
pub enum SerializeError {
    /// Too many blocks in the table of contents.
    TooManyBlocks(usize),
    /// Too many files in the table of contents.
    TooManyFiles(usize),
    /// Unsupported table of contents version.
    UnsupportedVersion(TableOfContentsVersion),
}

/// The largest file size among `items`.
pub open spec fn spec_largest_file_size<T: HasFileSize>(items: Seq<T>) -> u64
    decreases items.len(),
{
    if items.len() == 0 {
        0
    } else {
        let rest = spec_largest_file_size(items.drop_last());
        if items.last().spec_file_size() > rest {
            items.last().spec_file_size()
        } else {
            rest
        }
    }
}

/// Determines the layout version from the largest file size: V1 when some file is larger
/// than `u32::MAX` bytes, V0 otherwise; and whether some file is larger than `chunk_size`.
pub fn determine_version<T: HasFileSize>(items: &[T], chunk_size: u32) -> (r: VersionInfo)
    ensures
        r.version == (if spec_largest_file_size(items@) > u32::MAX { TableOfContentsVersion::V1 } else { TableOfContentsVersion::V0 }),
        r.can_create_chunks == (exists|i: int| 0 <= i < items@.len() && #[trigger] items@[i].spec_file_size() > chunk_size),
{
    let mut largest_file_size: u64 = 0;
    let mut can_create_chunks = false;
    let mut i: usize = 0;
    while i < items.len()
        invariant
            i <= items@.len(),
            largest_file_size == spec_largest_file_size(items@.take(i as int)),
            can_create_chunks == (exists|j: int| 0 <= j < i && #[trigger] items@[j].spec_file_size() > chunk_size),
        decreases items@.len() - i,
    {
        let file_size = items[i].file_size();
        proof {
            assert(items@.take(i + 1).drop_last() =~= items@.take(i as int));
        }
        if file_size > largest_file_size {
            largest_file_size = file_size;
        }
        if file_size > chunk_size as u64 {
            can_create_chunks = true;
        }
        i = i + 1;
    }
    proof {
        assert(items@.take(i as int) =~= items@);
    }
    let version = if largest_file_size > u32::MAX as u64 {
        TableOfContentsVersion::V1
    } else {
        TableOfContentsVersion::V0
    };
    VersionInfo { version, can_create_chunks }
}

/// Packs the string pool of `files` for the given layout version (always in the V0 pool
/// format); see [`StringPool::pack`]. The files are sorted by their paths, in place.
pub fn pack_string_pool_with_allocators<T: HasRelativePath>(
    version: TableOfContentsVersion,
    files: &mut [T],
) -> (r: Result<Vec<u8>, StringPoolPackError>)
    ensures
        final(files)@.to_multiset() == old(files)@.to_multiset(),
        paths_sorted(final(files)@),
        spec_pack_outcome(StringPoolFormat::V0, relative_paths(final(files)@), r),
        r is Ok ==> all_utf8(relative_paths(final(files)@)),
{
    StringPool::pack_v0(files)
}

/// Packing the string pool of the same files gives the same result for every layout
/// version, and whatever order the files came in: `a` and `b` are the files as two calls
/// of [`pack_string_pool_with_allocators`] left them, with `ra` and `rb` what the calls
/// gave.
pub proof fn lemma_pack_string_pool_same_result<T: HasRelativePath>(
    a: Seq<T>,
    b: Seq<T>,
    ra: Result<Vec<u8>, StringPoolPackError>,
    rb: Result<Vec<u8>, StringPoolPackError>,
)
    requires
        a.to_multiset() == b.to_multiset(),
        paths_sorted(a),
        paths_sorted(b),
        spec_pack_outcome(StringPoolFormat::V0, relative_paths(a), ra),
        spec_pack_outcome(StringPoolFormat::V0, relative_paths(b), rb),
    ensures
        relative_paths(a) == relative_paths(b),
        ra matches Ok(x) ==> rb matches Ok(y) && x@ == y@,
        ra matches Err(e) ==> rb == Err::<Vec<u8>, StringPoolPackError>(e),
{
    lemma_sorted_paths_unique(a, b);
}

/// Bytes per file entry: 20 in the V0 layout, 24 in the others.
pub open spec fn spec_entry_size(version: TableOfContentsVersion) -> nat {
    if version == TableOfContentsVersion::V0 {
        20
    } else {
        24
    }
}

/// The serialized form of a file entry.
pub open spec fn spec_entry_bytes(e: FileEntry, version: TableOfContentsVersion) -> Seq<u8> {
    let tuple = spec_offset_path_index_word(e.decompressed_block_offset, e.file_path_index, e.first_block_index);
    if version == TableOfContentsVersion::V0 {
        le_bytes64(e.hash) + le_bytes32(e.decompressed_size as u32) + le_bytes64(tuple)
    } else {
        le_bytes64(e.hash) + le_bytes64(e.decompressed_size) + le_bytes64(tuple)
    }
}

/// The serialized form of the file entries.
pub open spec fn spec_entries_bytes(entries: Seq<FileEntry>, version: TableOfContentsVersion) -> Seq<u8>
    decreases entries.len(),
{
    if entries.len() == 0 {
        Seq::empty()
    } else {
        spec_entries_bytes(entries.drop_last(), version) + spec_entry_bytes(entries.last(), version)
    }
}

/// The serialized form of the block entries.
pub open spec fn spec_blocks_bytes(blocks: Seq<BlockSize>, compressions: Seq<CompressionPreference>) -> Seq<u8>
    decreases blocks.len(),
{
    if blocks.len() == 0 {
        Seq::empty()
    } else {
        spec_blocks_bytes(blocks.drop_last(), compressions) + le_bytes32(
            spec_block_entry_word(blocks.last().compressed_size, compressions[blocks.len() - 1]) as u32,
        )
    }
}

/// The serialized table of contents: the header, the file entries, the block entries and
/// the string pool.
#[verifier::opaque]
pub open spec fn spec_table_bytes(
    compressions: Seq<CompressionPreference>,
    blocks: Seq<BlockSize>,
    entries: Seq<FileEntry>,
    version: TableOfContentsVersion,
    pool: Seq<u8>,
) -> Seq<u8> {
    le_bytes64(spec_native_toc_header_word(entries.len() as u32, blocks.len() as u32, pool.len() as u32, spec_version_to_u8(version)))
        + spec_entries_bytes(entries, version) + spec_blocks_bytes(blocks, compressions) + pool
}

/// What serializing the table of contents gives.
pub open spec fn spec_serialize_toc_outcome(
    compressions: Seq<CompressionPreference>,
    blocks: Seq<BlockSize>,
    entries: Seq<FileEntry>,
    version: TableOfContentsVersion,
    pool: Seq<u8>,
    r: Result<Vec<u8>, SerializeError>,
) -> bool {
    if blocks.len() > MAX_BLOCK_COUNT_V0V1 {
        r == Err::<Vec<u8>, SerializeError>(SerializeError::TooManyBlocks(blocks.len() as usize))
    } else if entries.len() > MAX_FILE_COUNT_V0V1 {
        r == Err::<Vec<u8>, SerializeError>(SerializeError::TooManyFiles(entries.len() as usize))
    } else if version != TableOfContentsVersion::V0 && version != TableOfContentsVersion::V1 {
        r == Err::<Vec<u8>, SerializeError>(SerializeError::UnsupportedVersion(version))
    } else {
        r matches Ok(v) && v@ == spec_table_bytes(compressions, blocks, entries, version, pool)
    }
}

/// Serializes the table of contents: the header, the file entries in the layout of
/// `version`, the block entries and the raw string pool data (obtained from
/// [`pack_string_pool_with_allocators`]).
///
/// # Errors
/// * `TooManyBlocks` for more than [`MAX_BLOCK_COUNT_V0V1`] blocks.
/// * `TooManyFiles` for more than [`MAX_FILE_COUNT_V0V1`] entries.
/// * `UnsupportedVersion` for a version other than V0 and V1.
pub fn serialize_table_of_contents(
    block_compressions: &[CompressionPreference],
    blocks: &[BlockSize],
    entries: &[FileEntry],
    version: TableOfContentsVersion,
    raw_string_pool_data: &[u8],
) -> (r: Result<Vec<u8>, SerializeError>)
    requires
        block_compressions@.len() == blocks@.len(),
        forall|i: int| 0 <= i < block_compressions@.len() ==> block_compressions@[i] != CompressionPreference::NoPreference,
    ensures
        spec_serialize_toc_outcome(block_compressions@, blocks@, entries@, version, raw_string_pool_data@, r),
{
    if blocks.len() > MAX_BLOCK_COUNT_V0V1 {
        return Err(SerializeError::TooManyBlocks(blocks.len()));
    }
    if entries.len() > MAX_FILE_COUNT_V0V1 {
        return Err(SerializeError::TooManyFiles(entries.len()));
    }
    match version {
        TableOfContentsVersion::V0 | TableOfContentsVersion::V1 => {},
        _ => {
            return Err(SerializeError::UnsupportedVersion(version));
        },
    }
    let header = NativeTocHeader::new(
        entries.len() as u32,
        blocks.len() as u32,
        raw_string_pool_data.len() as u32,
        version,
    );
    let mut out: Vec<u8> = Vec::new();
    push_u64_le(&mut out, header.0);
    let ghost head = out@;
    let mut i: usize = 0;
    while i < entries.len()
        invariant
            i <= entries@.len(),
            out@ == head + spec_entries_bytes(entries@.take(i as int), version),
        decreases entries@.len() - i,
    {
        let e = entries[i];
        let tuple = OffsetPathIndexTuple::new(e.decompressed_block_offset, e.file_path_index, e.first_block_index);
        push_u64_le(&mut out, e.hash);
        if version == TableOfContentsVersion::V0 {
            push_u32_le(&mut out, e.decompressed_size as u32);
        } else {
            push_u64_le(&mut out, e.decompressed_size);
        }
        push_u64_le(&mut out, tuple.into_raw());
        proof {
            assert(entries@.take(i + 1).drop_last() =~= entries@.take(i as int));
            assert(out@ =~= head + spec_entries_bytes(entries@.take(i + 1), version));
        }
        i = i + 1;
    }
    assert(entries@.take(i as int) =~= entries@);
    let ghost with_entries = out@;
    let mut k: usize = 0;
    while k < blocks.len()
        invariant
            k <= blocks@.len(),
            block_compressions@.len() == blocks@.len(),
            forall|j: int| 0 <= j < block_compressions@.len() ==> block_compressions@[j] != CompressionPreference::NoPreference,
            out@ == with_entries + spec_blocks_bytes(blocks@.take(k as int), block_compressions@),
        decreases blocks@.len() - k,
    {
        let entry = NativeTocBlockEntry::new(blocks[k].compressed_size, block_compressions[k]);
        push_u32_le(&mut out, entry.0);
        proof {
            assert(blocks@.take(k + 1).drop_last() =~= blocks@.take(k as int));
            assert(out@ =~= with_entries + spec_blocks_bytes(blocks@.take(k + 1), block_compressions@));
        }
        k = k + 1;
    }
    assert(blocks@.take(k as int) =~= blocks@);
    append_bytes(&mut out, raw_string_pool_data);
    proof {
        reveal(spec_table_bytes);
    }
    Ok(out)
}

/// The size of the serialized table: the 8 byte header, 20 (V0) or 24 bytes per entry,
/// 4 bytes per block and the string pool.
pub open spec fn spec_table_size(num_entries: int, num_blocks: int, pool_len: int, version: TableOfContentsVersion) -> int {
    8 + num_entries * spec_entry_size(version) + num_blocks * 4 + pool_len
}

/// Calculates the size of the table after serialization, for pre-allocating space.
pub fn calculate_table_size(
    num_entries: usize,
    num_blocks: usize,
    pool_len: usize,
    version: TableOfContentsVersion,
) -> (r: usize)
    requires
        spec_table_size(num_entries as int, num_blocks as int, pool_len as int, version) <= usize::MAX,
    ensures
        r == spec_table_size(num_entries as int, num_blocks as int, pool_len as int, version),
{
    let entry_size: usize = if version == TableOfContentsVersion::V0 { 20 } else { 24 };
    8 + num_entries * entry_size + num_blocks * 4 + pool_len
}

} // verus!
