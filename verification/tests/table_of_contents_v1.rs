use sewer56_archives_nx::api::enums::compression_preference::CompressionPreference;
use sewer56_archives_nx::headers::enums::table_of_contents_version::TableOfContentsVersion;
use sewer56_archives_nx::headers::managed::block_size::BlockSize;
use sewer56_archives_nx::headers::managed::file_entry::FileEntry;
use sewer56_archives_nx::headers::managed::table_of_contents::{DeserializeError, TableOfContents};
use sewer56_archives_nx::headers::managed::v1::table_of_contents_builder::{
    calculate_table_size, determine_version, pack_string_pool_with_allocators,
    serialize_table_of_contents, SerializeError, MAX_BLOCK_COUNT_V0V1, MAX_FILE_COUNT_V0V1,
};
use sewer56_archives_nx::headers::raw::native_toc_block_entry::NativeTocBlockEntry;
use sewer56_archives_nx::headers::raw::native_file_entry::NativeFileEntry;
use sewer56_archives_nx::headers::raw::toc::v1::native_file_entry_v1::NativeFileEntryV1;
use sewer56_archives_nx::headers::raw::toc::v1::offset_path_index_tuple::OffsetPathIndexTuple;

const VERSIONS: [TableOfContentsVersion; 2] = [TableOfContentsVersion::V0, TableOfContentsVersion::V1];

#[test]
fn can_serialize_and_deserialize() {
    for version in VERSIONS {
        let entries: Vec<FileEntry> = vec![
            FileEntry::new(0xBBBBBBBBBBBBBBBB, 113763968, 0, 0, 0),
            FileEntry::new(0xCCCCCCCCCCCCCCCC, 62939496, 0, 1, 2),
            FileEntry::new(0xDDDDDDDDDDDDDDDD, 768, 0, 2, 4),
            FileEntry::new(0xEEEEEEEEEEEEEEEE, 3072, 768, 3, 4),
            FileEntry::new(0xFFFFFFFFFFFFFFFF, 2048, 3840, 4, 4),
        ];
        let blocks: Vec<BlockSize> = vec![
            BlockSize::new(113763968),
            BlockSize::new(62939496),
            BlockSize::new(768),
            BlockSize::new(3072 + 2048),
        ];
        let block_compressions = vec![
            CompressionPreference::Copy,
            CompressionPreference::ZStandard,
            CompressionPreference::Lz4,
            CompressionPreference::Copy,
        ];
        let mut files: Vec<String> = vec![
            "dvdroot/textures/s01.txd".to_string(),
            "dvdroot/textures/s12.txd".to_string(),
            "ModConfig.json".to_string(),
            "Readme.md".to_string(),
            "Changelog.md".to_string(),
        ];
        let pool = pack_string_pool_with_allocators(version, &mut files).unwrap();
        let data = serialize_table_of_contents(&block_compressions, &blocks, &entries, version, &pool).unwrap();
        assert_eq!(data.len(), calculate_table_size(entries.len(), blocks.len(), pool.len(), version));
        let table = TableOfContents::deserialize_v1xx(&data).unwrap();
        assert_eq!(table.entries, entries);
        assert_eq!(table.blocks, blocks);
        assert_eq!(table.block_compressions, block_compressions);
        assert_eq!(table.pool.len(), 5);
        assert_eq!(table.pool.get(0), Some("Changelog.md"));
        assert_eq!(
            table.pool.iter(),
            vec!["Changelog.md", "ModConfig.json", "Readme.md", "dvdroot/textures/s01.txd", "dvdroot/textures/s12.txd"]
        );
    }
}

#[test]
fn entry_sizes_depend_on_version() {
    assert_eq!(calculate_table_size(2, 3, 10, TableOfContentsVersion::V0), 8 + 40 + 12 + 10);
    assert_eq!(calculate_table_size(2, 3, 10, TableOfContentsVersion::V1), 8 + 48 + 12 + 10);
}

#[test]
fn v0_truncates_large_file_sizes() {
    let entries = vec![FileEntry::new(1, 0x1_0000_0005, 0, 0, 0)];
    let blocks = vec![BlockSize::new(10)];
    let compressions = vec![CompressionPreference::Copy];
    let mut files = vec!["a".to_string()];
    let pool = pack_string_pool_with_allocators(TableOfContentsVersion::V0, &mut files).unwrap();
    let data = serialize_table_of_contents(&compressions, &blocks, &entries, TableOfContentsVersion::V0, &pool).unwrap();
    let table = TableOfContents::deserialize(&data).unwrap();
    assert_eq!(table.entries[0].decompressed_size, 5);
    let data = serialize_table_of_contents(&compressions, &blocks, &entries, TableOfContentsVersion::V1, &pool).unwrap();
    let table = TableOfContents::deserialize_with_allocator(&data).unwrap();
    assert_eq!(table.entries[0].decompressed_size, 0x1_0000_0005);
}

#[test]
fn throws_error_when_file_count_exceeds_maximum() {
    let entries = vec![FileEntry::default(); MAX_FILE_COUNT_V0V1 + 1];
    let result = serialize_table_of_contents(&[], &[], &entries, TableOfContentsVersion::V0, &[]);
    assert_eq!(result, Err(SerializeError::TooManyFiles(MAX_FILE_COUNT_V0V1 + 1)));
}

#[test]
fn throws_error_when_block_count_exceeds_maximum() {
    let blocks = vec![BlockSize::new(1); MAX_BLOCK_COUNT_V0V1 + 1];
    let compressions = vec![CompressionPreference::Copy; MAX_BLOCK_COUNT_V0V1 + 1];
    let result = serialize_table_of_contents(&compressions, &blocks, &[], TableOfContentsVersion::V1, &[]);
    assert_eq!(result, Err(SerializeError::TooManyBlocks(MAX_BLOCK_COUNT_V0V1 + 1)));
}

#[test]
fn rejects_later_versions() {
    let result = serialize_table_of_contents(&[], &[], &[], TableOfContentsVersion::V2, &[]);
    assert_eq!(result, Err(SerializeError::UnsupportedVersion(TableOfContentsVersion::V2)));
}

#[test]
fn deserialize_rejects_truncated_and_unknown_data() {
    assert!(matches!(TableOfContents::deserialize(&[1, 2, 3]), Err(DeserializeError::InsufficientData)));
    let mut files = vec!["a".to_string()];
    let pool = pack_string_pool_with_allocators(TableOfContentsVersion::V0, &mut files).unwrap();
    let entries = vec![FileEntry::new(1, 2, 3, 0, 0)];
    let data = serialize_table_of_contents(&[], &[], &entries, TableOfContentsVersion::V0, &pool).unwrap();
    assert!(matches!(
        TableOfContents::deserialize(&data[..data.len() - 1]),
        Err(DeserializeError::InsufficientData)
    ));
    let mut v2 = data.clone();
    v2[7] = (v2[7] & 0x3F) | 0x80;
    assert!(matches!(TableOfContents::deserialize(&v2), Err(DeserializeError::UnsupportedTocVersion)));
    let data = serialize_table_of_contents(&[], &[], &entries, TableOfContentsVersion::V0, &[1, 2, 3]).unwrap();
    assert!(matches!(
        TableOfContents::deserialize_v1xx_with_allocator(&data),
        Err(DeserializeError::StringPoolUnpackError(_))
    ));
}

#[test]
fn deserialize_rejects_unknown_block_compression() {
    let blocks = vec![BlockSize::new(7)];
    let compressions = vec![CompressionPreference::Lz4];
    let mut data = serialize_table_of_contents(&compressions, &blocks, &[], TableOfContentsVersion::V0, &[]).unwrap();
    data[8] |= 0b111;
    assert!(matches!(TableOfContents::deserialize(&data), Err(DeserializeError::InvalidBlockCompression)));
}

#[test]
fn determine_version_checks_largest_file() {
    let info = determine_version(&[10u64, 20, 30], 25);
    assert_eq!(info.version, TableOfContentsVersion::V0);
    assert!(info.can_create_chunks);
    let info = determine_version(&[10u64, u32::MAX as u64 + 1], u32::MAX);
    assert_eq!(info.version, TableOfContentsVersion::V1);
    assert!(info.can_create_chunks);
    let info = determine_version::<u64>(&[], 1);
    assert_eq!(info.version, TableOfContentsVersion::V0);
    assert!(!info.can_create_chunks);
}

#[test]
fn block_entry_packs_size_and_compression() {
    let entry = NativeTocBlockEntry::new(12345, CompressionPreference::ZStandard);
    assert_eq!(entry.0, (12345 << 3) | 1);
    assert_eq!(entry.compressed_block_size(), 12345);
    assert_eq!(entry.compression(), CompressionPreference::ZStandard);
    assert_eq!(entry.try_compression(), Some(CompressionPreference::ZStandard));
    assert_eq!(NativeTocBlockEntry(3).try_compression(), None);
}

#[test]
fn offset_path_index_tuple_packs_fields() {
    let t = OffsetPathIndexTuple::new(0x3FF_FFFF, 0xF_FFFF, 0x3_FFFF);
    assert_eq!(t.into_raw(), u64::MAX);
    let t = OffsetPathIndexTuple::new(5, 6, 7);
    assert_eq!(t.decompressed_block_offset(), 5);
    assert_eq!(t.file_path_index(), 6);
    assert_eq!(t.first_block_index(), 7);
    assert_eq!(t.into_raw(), (5 << 38) | (6 << 18) | 7);
    let t = OffsetPathIndexTuple::new(0x400_0001, 0x10_0002, 0x4_0003);
    assert_eq!((t.decompressed_block_offset(), t.file_path_index(), t.first_block_index()), (1, 2, 3));
}

#[test]
fn native_file_entry_v1_copies_to_and_from_managed_entry() {
    let managed = FileEntry::new(0x1234, 0x5678_9ABC_DEF0, 100, 200, 300);
    let mut native = NativeFileEntryV1::new(0, 0, 0);
    native.copy_from(&managed);
    assert_eq!(native.hash, 0x1234);
    assert_eq!(native.decompressed_block_offset(), 100);
    assert_eq!(native.file_path_index(), 200);
    assert_eq!(native.first_block_index(), 300);
    let mut back = FileEntry::default();
    native.copy_to(&mut back);
    assert_eq!(back, managed);
    native.set_decompressed_block_offset(1);
    native.set_file_path_index(2);
    native.set_first_block_index(3);
    assert_eq!((native.decompressed_block_offset(), native.file_path_index(), native.first_block_index()), (1, 2, 3));
    assert_eq!(NativeFileEntryV1::SIZE_BYTES, 24);
}

#[test]
fn deserialized_table_reports_its_version() {
    for version in VERSIONS {
        let entries = vec![FileEntry::new(1, 5, 0, 0, 0)];
        let blocks = vec![BlockSize::new(10)];
        let compressions = vec![CompressionPreference::Copy];
        let mut files = vec!["a".to_string()];
        let pool = pack_string_pool_with_allocators(version, &mut files).unwrap();
        let data = serialize_table_of_contents(&compressions, &blocks, &entries, version, &pool).unwrap();
        let table = TableOfContents::deserialize(&data).unwrap();
        assert_eq!(table.version, version);
    }
}

#[test]
fn packing_the_pool_gives_the_same_bytes_for_each_version() {
    let mut files_v0 = vec!["b.txt".to_string(), "a.txt".to_string()];
    let mut files_v1 = files_v0.clone();
    let v0 = pack_string_pool_with_allocators(TableOfContentsVersion::V0, &mut files_v0).unwrap();
    let v1 = pack_string_pool_with_allocators(TableOfContentsVersion::V1, &mut files_v1).unwrap();
    assert_eq!(v0, v1);
    assert_eq!(files_v0, vec!["a.txt".to_string(), "b.txt".to_string()]);
}
