use sewer56_archives_nx::api::enums::compression_preference::CompressionPreference;
use sewer56_archives_nx::headers::enums::table_of_contents_version::TableOfContentsVersion;
use sewer56_archives_nx::headers::managed::block_size::BlockSize;
use sewer56_archives_nx::headers::managed::file_entry::FileEntry;
use sewer56_archives_nx::headers::managed::table_of_contents::{DeserializeError, TableOfContents};
use sewer56_archives_nx::headers::managed::v2::table_of_contents_builder::{
    builder_info_from_pool, calculate_toc_size, fef64_needs_extra_8bytes, pack_item_counts, serialize_table_of_contents,
    BuilderInfo, SerializeError,
};
use sewer56_archives_nx::headers::parser::string_pool::StringPool;
use sewer56_archives_nx::headers::raw::toc::v1::native_file_entry_v1::NativeFileEntryV1;
use sewer56_archives_nx::headers::raw::toc::v2::fef64::fileentry8::{FileEntry16, FileEntry8};
use sewer56_archives_nx::headers::raw::toc::v2::fef64::fileentrycommon::{FileEntryFieldsBits, ItemCounts};
use sewer56_archives_nx::headers::raw::toc::v2::fef64::toc_header::Fef64TocHeader;
use sewer56_archives_nx::headers::raw::toc::v2::format_selector::ToCFormat;
use sewer56_archives_nx::headers::raw::toc::v2::native_v2_toc_block_entry::NativeV2TocBlockEntry;
use sewer56_archives_nx::headers::raw::toc::v2::presets::preset0_fileentry::{write_p0_entry, NativeFileEntryP0};
use sewer56_archives_nx::headers::raw::toc::v2::presets::preset1_fileentry::{write_p1_entry, NativeFileEntryP1};
use sewer56_archives_nx::headers::raw::toc::v2::presets::preset2_fileentry::{write_p2_entry, NativeFileEntryP2};
use sewer56_archives_nx::headers::raw::toc::v2::presets::preset3_fileentry::NativeFileEntryP3;
use sewer56_archives_nx::headers::raw::toc::v2::presets::preset3_fileentry_nohash::{
    write_p3nohash_entry, NativeFileEntryP3NoHash,
};

const FORMATS: [ToCFormat; 6] = [
    ToCFormat::Preset0,
    ToCFormat::Preset1,
    ToCFormat::Preset2,
    ToCFormat::Preset3,
    ToCFormat::Preset3NoHash,
    ToCFormat::FEF64,
];

fn test_entries() -> Vec<FileEntry> {
    vec![
        FileEntry::new(0xBBBBBBBBBBBBBBBB, 16_777_215, 0, 0, 0),
        FileEntry::new(0xCCCCCCCCCCCCCCCC, 8_388_607, 0, 1, 2),
        FileEntry::new(0xDDDDDDDDDDDDDDDD, 256, 0, 2, 3),
        FileEntry::new(0xEEEEEEEEEEEEEEEE, 512, 256, 3, 3),
        FileEntry::new(0xFFFFFFFFFFFFFFFF, 1024, 768, 4, 3),
    ]
}

fn test_blocks() -> (Vec<BlockSize>, Vec<CompressionPreference>) {
    (
        vec![
            BlockSize::new(8_388_608),
            BlockSize::new(8_388_607),
            BlockSize::new(8_388_607),
            BlockSize::new(1792),
        ],
        vec![
            CompressionPreference::Copy,
            CompressionPreference::ZStandard,
            CompressionPreference::Lz4,
            CompressionPreference::Copy,
        ],
    )
}

fn test_pool() -> Vec<u8> {
    let mut files: Vec<String> = vec![
        "a.bin".to_string(),
        "b.bin".to_string(),
        "c/d.bin".to_string(),
        "c/e.bin".to_string(),
        "f.txt".to_string(),
    ];
    StringPool::pack_v0(&mut files).unwrap()
}

fn info_for(format: ToCFormat, pool: Vec<u8>, blocks: u32, files: u32) -> BuilderInfo {
    BuilderInfo {
        format,
        can_create_chunks: true,
        table_size: calculate_toc_size(format, pool.len() as u32, blocks, files),
        max_decomp_block_offset: 4096,
        string_pool: pool,
    }
}

#[test]
fn v2_can_serialize_and_deserialize() {
    for format in FORMATS {
        let entries = test_entries();
        let (blocks, compressions) = test_blocks();
        let info = info_for(format, test_pool(), blocks.len() as u32, entries.len() as u32);
        let data = serialize_table_of_contents(&compressions, &blocks, &entries, &info).unwrap();
        assert_eq!(data.len(), info.table_size as usize);

        let table = TableOfContents::deserialize_v2xx(&data).unwrap();
        assert_eq!(table.entries.len(), entries.len());
        assert_eq!(table.blocks, blocks);
        assert_eq!(table.block_compressions, compressions);
        let has_hash = format != ToCFormat::Preset1 && format != ToCFormat::Preset3NoHash;
        let has_block_offset = format != ToCFormat::Preset3 && format != ToCFormat::Preset3NoHash;
        for (written, read) in entries.iter().zip(table.entries.iter()) {
            if has_hash {
                assert_eq!(written.hash, read.hash);
            } else {
                assert_eq!(read.hash, 0);
            }
            assert_eq!(written.decompressed_size, read.decompressed_size);
            if has_block_offset {
                assert_eq!(written.decompressed_block_offset, read.decompressed_block_offset);
            } else {
                assert_eq!(read.decompressed_block_offset, 0);
            }
            assert_eq!(written.file_path_index, read.file_path_index);
            assert_eq!(written.first_block_index, read.first_block_index);
        }
        assert_eq!(table.pool.iter(), vec!["a.bin", "b.bin", "c/d.bin", "c/e.bin", "f.txt"]);
    }
}

#[test]
fn v2_error_format_is_not_serialized() {
    let entries = test_entries();
    let (blocks, compressions) = test_blocks();
    let info = info_for(ToCFormat::Error, test_pool(), 4, 5);
    assert_eq!(
        serialize_table_of_contents(&compressions, &blocks, &entries, &info),
        Err(SerializeError::UnsupportedTocFormat)
    );
}

#[test]
fn v2_table_sizes() {
    // 8 byte header, entries, 4 bytes per block, pool.
    assert_eq!(calculate_toc_size(ToCFormat::Preset0, 10, 2, 3), 8 + 20 * 3 + 4 * 2 + 10);
    assert_eq!(calculate_toc_size(ToCFormat::Preset1, 10, 2, 3), 8 + 12 * 3 + 4 * 2 + 10);
    assert_eq!(calculate_toc_size(ToCFormat::Preset2, 10, 2, 3), 8 + 24 * 3 + 4 * 2 + 10);
    assert_eq!(calculate_toc_size(ToCFormat::Preset3, 10, 2, 3), 8 + 16 * 3 + 4 * 2 + 10);
    assert_eq!(calculate_toc_size(ToCFormat::Preset3NoHash, 10, 2, 3), 8 + 8 * 3 + 4 * 2 + 10);
    assert_eq!(calculate_toc_size(ToCFormat::FEF64, 10, 2, 3), 8 + 16 * 3 + 4 * 2 + 10);
    // Counts needing more than 42 bits take 8 more bytes.
    assert!(!fef64_needs_extra_8bytes(10, 2, 3));
    assert!(fef64_needs_extra_8bytes(u32::MAX, 0x7FFF_FFFF, 0x7FFF));
    assert_eq!(
        calculate_toc_size(ToCFormat::FEF64, 0xFFFF, 0x7FFF_FFF, 0x7FFF),
        16 + 16 * 0x7FFF + 4 * 0x7FFF_FFF + 0xFFFF
    );
}

#[test]
fn v2_item_counts_pack_from_the_low_bits() {
    let mut counts: u64 = 0;
    pack_item_counts(0b101, 3, 0b11, 2, 0b1, 1, &mut counts);
    assert_eq!(counts, 0b101_11_1);
}

#[test]
fn v2_truncated_table_is_insufficient_data() {
    let entries = test_entries();
    let (blocks, compressions) = test_blocks();
    for format in [ToCFormat::Preset0, ToCFormat::FEF64] {
        let info = info_for(format, test_pool(), 4, 5);
        let data = serialize_table_of_contents(&compressions, &blocks, &entries, &info).unwrap();
        let result = TableOfContents::deserialize_v2xx(&data[..data.len() - 1]);
        assert!(matches!(result, Err(DeserializeError::InsufficientData)));
    }
    assert!(matches!(TableOfContents::deserialize_v2xx(&[0u8; 4]), Err(DeserializeError::InsufficientData)));
}

#[test]
fn v2_extended_header_needs_sixteen_bytes() {
    // FEF64 header whose item counts need more than 42 bits.
    let header = Fef64TocHeader::new(true, 20, 15, 10, 5, 0);
    let mut data = header.0.to_le_bytes().to_vec();
    data.extend_from_slice(&[0u8; 4]);
    assert!(matches!(TableOfContents::deserialize_v2xx(&data), Err(DeserializeError::InsufficientData)));
}

#[test]
fn v2_header_wider_than_64_bits_is_invalid() {
    let header = Fef64TocHeader::new(true, 31, 31, 31, 5, 0);
    let mut data = header.0.to_le_bytes().to_vec();
    data.extend_from_slice(&[0u8; 16]);
    assert!(matches!(TableOfContents::deserialize_v2xx(&data), Err(DeserializeError::InvalidHeader)));
}

#[test]
fn v2_invalid_block_compression_is_rejected() {
    let entries = test_entries();
    let (blocks, compressions) = test_blocks();
    let info = info_for(ToCFormat::Preset0, test_pool(), 4, 5);
    let mut data = serialize_table_of_contents(&compressions, &blocks, &entries, &info).unwrap();
    // First block entry follows the header and the 5 entries of 20 bytes.
    data[8 + 5 * 20] |= 0b11;
    assert!(matches!(TableOfContents::deserialize_v2xx(&data), Err(DeserializeError::InvalidBlockCompression)));
}

#[test]
fn v2_block_entry_packs_size_and_compression() {
    let entry = NativeV2TocBlockEntry::new(1792, CompressionPreference::Lz4);
    assert_eq!(entry.0, (1792 << 2) | 2);
    assert_eq!(entry.compressed_block_size(), 1792);
    assert_eq!(entry.compression(), CompressionPreference::Lz4);
    assert_eq!(NativeV2TocBlockEntry(3).try_compression(), None);
}

#[test]
fn native_file_entry_v1_is_correct_size_bytes() {
    assert_eq!(std::mem::size_of::<NativeFileEntryV1>(), 24);
}

#[test]
fn fileentry8_size_is_correct() {
    assert_eq!(std::mem::size_of::<FileEntry8>(), 8, "FileEntry8 should be 8 bytes");
    assert_eq!(FileEntry16::SIZE_BYTES, 16);
}

#[test]
fn fileentry8_packs_correctly() {
    let item_counts = FileEntryFieldsBits {
        block_count_bits: 10,
        file_count_bits: 10,
        decompressed_block_offset_bits: 12,
    };

    let decompressed_size = 0xABCDE;
    let decompressed_block_offset = 0x123;
    let file_path_index = 0x3FF; // Max for 10 bits
    let first_block_index = 0x3FF; // Max for 10 bits

    let entry = FileEntry8::new(
        item_counts,
        decompressed_size,
        decompressed_block_offset,
        file_path_index,
        first_block_index,
    );

    assert_eq!(entry.decompressed_size(item_counts), decompressed_size, "Decompressed size does not match");
    assert_eq!(
        entry.decompressed_block_offset(item_counts),
        decompressed_block_offset,
        "Decompressed block offset does not match"
    );
    assert_eq!(entry.file_path_index(item_counts), file_path_index, "File path index does not match");
    assert_eq!(entry.first_block_index(item_counts), first_block_index, "First block index does not match");
}

#[test]
fn fileentry8_to_fileentry_conversion_is_correct() {
    let item_counts = FileEntryFieldsBits {
        block_count_bits: 10,
        file_count_bits: 10,
        decompressed_block_offset_bits: 12,
    };

    let decompressed_size = 0xABCDE;
    let decompressed_block_offset = 0x123;
    let file_path_index = 0x3FF; // Max for 10 bits
    let first_block_index = 0x3FF; // Max for 10 bits

    let entry8 = FileEntry8::new(
        item_counts,
        decompressed_size,
        decompressed_block_offset,
        file_path_index,
        first_block_index,
    );

    let entry = entry8.to_file_entry(item_counts);

    assert_eq!(entry.decompressed_size, decompressed_size, "Decompressed size does not match");
    assert_eq!(
        entry.decompressed_block_offset, decompressed_block_offset as u32,
        "Decompressed block offset does not match"
    );
    assert_eq!(entry.file_path_index, file_path_index as u32, "File path index does not match");
    assert_eq!(entry.first_block_index, first_block_index as u32, "First block index does not match");
}

#[test]
fn fileentry8_layout_is_block_path_offset_size_from_the_low_bits() {
    let counts = ItemCounts::new(4, 8, 12);
    assert_eq!(counts.used_bits(), 24);
    assert_eq!(counts.decompressed_size_bits(), 40);
    let entry = FileEntry8::new(counts, 0x5, 0xABC, 0x12, 0x3);
    assert_eq!(entry.to_u64(), (0x5 << 24) | (0xABC << 12) | (0x12 << 4) | 0x3);
    // With no bits for the other fields, the size takes the whole word.
    let all_size = ItemCounts::new(0, 0, 0);
    assert_eq!(FileEntry8::new(all_size, u64::MAX, 0, 0, 0).to_u64(), u64::MAX);
}

#[test]
fn preset0_fileentry_is_correct_size_bytes() {
    assert_eq!(NativeFileEntryP0::SIZE_BYTES, 20);
    let mut out = Vec::new();
    write_p0_entry(&FileEntry::new(1, 2, 3, 4, 5), &mut out);
    assert_eq!(out.len(), 20);
}

#[test]
fn preset1_fileentry_is_correct_size_bytes() {
    assert_eq!(NativeFileEntryP1::SIZE_BYTES, 12);
    let mut out = Vec::new();
    write_p1_entry(&FileEntry::new(1, 2, 3, 4, 5), &mut out);
    assert_eq!(out.len(), 12);
}

#[test]
fn preset2_fileentry_is_correct_size_bytes() {
    assert_eq!(std::mem::size_of::<NativeFileEntryP2>(), 24);
    let mut out = Vec::new();
    write_p2_entry(&FileEntry::new(1, 2, 3, 4, 5), &mut out);
    assert_eq!(out.len(), 24);
}

#[test]
fn preset3_fileentry_nohash_is_correct_size_bytes() {
    assert_eq!(std::mem::size_of::<NativeFileEntryP3NoHash>(), 8);
    let mut out = Vec::new();
    write_p3nohash_entry(&FileEntry::new(1, 2, 3, 4, 5), &mut out);
    assert_eq!(out.len(), 8);
    assert_eq!(NativeFileEntryP3::SIZE_BYTES, 16);
}

#[test]
fn preset_entries_convert_to_and_from_managed_entries() {
    let entry = FileEntry::new(0x1122334455667788, 0x12345678, 0xABCDEF, 0x3FFFF, 0x3FFFFF);
    let p0 = NativeFileEntryP0::from_entry(&entry);
    assert_eq!(p0.to_entry(), entry);
    assert_eq!(p0.decompressed_block_offset(), 0xABCDEF);
    assert_eq!(p0.file_path_index(), 0x3FFFF);
    assert_eq!(p0.first_block_index(), 0x3FFFFF);
    let p1 = NativeFileEntryP1::from_entry(&entry);
    assert_eq!(p1.to_entry(), FileEntry { hash: 0, ..entry });
    let big = FileEntry::new(7, u64::MAX, 1, 2, 3);
    assert_eq!(NativeFileEntryP2::from_entry(&big).to_entry(), big);
    let p3 = NativeFileEntryP3::from_entry(&FileEntry::new(9, 100, 55, 0xFFFF, 0x1234));
    assert_eq!(p3.to_entry(), FileEntry::new(9, 100, 0, 0xFFFF, 0x1234));
    // Preset 0 keeps only 32 bits of the size.
    assert_eq!(NativeFileEntryP0::from_entry(&FileEntry::new(0, 0x1_0000_0001, 0, 0, 0)).decompressed_size, 1);
}

#[test]
fn preset1_is_picked_for_offsets_it_cannot_hold() {
    // Offsets beyond 31 bits rule out FEF64; Preset 1 is picked without looking at them.
    let info = builder_info_from_pool(test_pool_of_one(), 100, false, 0x8000_0000, 1, 1, false).unwrap();
    assert_eq!(info.format, ToCFormat::Preset1);
    let entries = vec![FileEntry::new(0, 100, 0x8000_0000, 0, 0)];
    let blocks = vec![BlockSize::new(100)];
    let compressions = vec![CompressionPreference::Copy];
    let data = serialize_table_of_contents(&compressions, &blocks, &entries, &info).unwrap();
    let table = TableOfContents::deserialize_v2xx(&data).unwrap();
    // The offset keeps only its low 24 bits.
    assert_eq!(table.entries[0].decompressed_block_offset, 0);
    assert_eq!(table.entries[0].decompressed_size, 100);
}

fn test_pool_of_one() -> Vec<u8> {
    let mut files: Vec<String> = vec!["only.bin".to_string()];
    StringPool::pack_v0(&mut files).unwrap()
}

#[test]
fn v2_table_reports_version_v2() {
    let info = builder_info_from_pool(test_pool_of_one(), 100, false, 0, 1, 1, false).unwrap();
    let entries = vec![FileEntry::new(0, 100, 0, 0, 0)];
    let blocks = vec![BlockSize::new(100)];
    let compressions = vec![CompressionPreference::Copy];
    let data = serialize_table_of_contents(&compressions, &blocks, &entries, &info).unwrap();
    let table = TableOfContents::deserialize_v2xx(&data).unwrap();
    assert_eq!(table.version, TableOfContentsVersion::V2);
    assert_eq!(table.pool.get(0), Some("only.bin"));
}
