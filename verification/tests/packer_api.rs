use std::sync::Arc;

use sewer56_archives_nx::api::enums::compression_preference::CompressionPreference;
use sewer56_archives_nx::api::enums::solid_preference::SolidPreference;
use sewer56_archives_nx::api::filedata::input::existing_nx_block::from_existing_nx_block::FromExistingNxBlock;
use sewer56_archives_nx::api::filedata::input::from_slice_reference_provider::FromSliceReferenceProvider;
use sewer56_archives_nx::api::filedata::input::input_data_source::InputDataSource;
use sewer56_archives_nx::api::packer_builder::{AddFileParams, NxPackerBuilder};
use sewer56_archives_nx::api::packing::packer_file::PackerFile;
use sewer56_archives_nx::api::packing::packing_settings::{
    next_power_of_two, PackingSettings, MAX_BLOCK_SIZE, MAX_CHUNK_SIZE, MIN_BLOCK_SIZE, MIN_CHUNK_SIZE,
};
use sewer56_archives_nx::api::traits::can_provide_input_data::CanProvideInputData;
use sewer56_archives_nx::api::traits::filedata::file_data::FileData;
use sewer56_archives_nx::api::traits::filedata::writeonly::output_data_provider::SmallFileEntry;
use sewer56_archives_nx::api::traits::has_compression_preference::HasCompressionPreference;
use sewer56_archives_nx::api::traits::has_file_size::HasFileSize;
use sewer56_archives_nx::api::traits::has_relative_path::HasRelativePath;
use sewer56_archives_nx::api::traits::has_solid_type::HasSolidType;
use sewer56_archives_nx::headers::managed::file_entry::FileEntry;
use sewer56_archives_nx::headers::managed::v2::table_of_contents_builder::{
    builder_info_from_pool, init_toc_creation, try_init_toc_creation, InitError,
};
use sewer56_archives_nx::headers::raw::toc::v2::format_selector::ToCFormat;

const CORES: u32 = 4;

#[test]
fn can_configure_block_size() {
    let builder = NxPackerBuilder::new(CORES).with_block_size(65536);
    assert_eq!(builder.settings.block_size, 65536); // not yet sanitized
}

#[test]
fn can_configure_chunk_size() {
    let builder = NxPackerBuilder::new(CORES).with_chunk_size(4194304);
    assert_eq!(builder.settings.chunk_size, 4194304); // Power of 2
}

#[test]
fn can_configure_deduplication() {
    let builder = NxPackerBuilder::new(CORES)
        .with_chunked_deduplication(true)
        .with_solid_deduplication(false);

    assert!(builder.settings.enable_chunked_deduplication);
    assert!(!builder.settings.enable_solid_deduplication);
}

#[test]
fn default_creates_new_instance() {
    let builder = NxPackerBuilder::new(CORES);
    assert!(!builder.settings.enable_chunked_deduplication);
    assert!(builder.settings.enable_solid_deduplication);
    assert_eq!(builder.settings.max_num_threads, CORES);
    assert!(builder.files.is_empty());
}

#[test]
fn can_add_file_from_byte_slice() {
    let data = b"Hello, World!".to_vec();
    let mut builder = NxPackerBuilder::new(CORES);
    let options = AddFileParams {
        relative_path: String::from("test.txt"),
        compression_preference: CompressionPreference::NoPreference,
        solid_type: SolidPreference::Default,
    };

    builder.add_file_from_byte_slice(&data, options);

    assert_eq!(builder.files.len(), 1);
    let file = &builder.files[0];
    assert_eq!(file.relative_path(), "test.txt");
    assert_eq!(file.file_size(), 13);
    assert!(matches!(file.input_data_provider(), InputDataSource::Slice(bytes) if *bytes == data.as_slice()));
}

#[test]
fn can_add_file_from_boxed_slice() {
    let mut builder = NxPackerBuilder::new(CORES);
    let data = b"Hello, World!".to_vec();
    let options = AddFileParams {
        relative_path: String::from("test.txt"),
        compression_preference: CompressionPreference::NoPreference,
        solid_type: SolidPreference::Default,
    };

    builder.add_file_from_boxed_slice(data.into_boxed_slice(), options);

    assert_eq!(builder.files.len(), 1);
    let file = &builder.files[0];
    assert_eq!(file.relative_path(), "test.txt");
    assert_eq!(file.file_size(), 13);
}

#[test]
fn can_add_file_from_stream() {
    let mut builder = NxPackerBuilder::new(CORES);
    let options = AddFileParams {
        relative_path: String::from("test.txt"),
        compression_preference: CompressionPreference::NoPreference,
        solid_type: SolidPreference::Default,
    };

    // The caller keeps the stream; the builder records its number.
    builder.add_file_from_stream(0, 13, options);

    assert_eq!(builder.files.len(), 1);
    let file = &builder.files[0];
    assert_eq!(file.relative_path(), "test.txt");
    assert_eq!(file.file_size(), 13);
    assert!(matches!(file.input_data_provider(), InputDataSource::Stream(0)));
}

#[test]
fn builder_appends_files_in_order_with_their_preferences() {
    let data = [1u8, 2, 3];
    let mut builder = NxPackerBuilder::new(CORES);
    builder
        .add_file_from_byte_slice(&data, AddFileParams::new("a.bin".into()))
        .add_file("b.bin".into(), 100, AddFileParams::with_options("b.bin".into(), CompressionPreference::Lz4, SolidPreference::NoSolid));
    assert_eq!(builder.files.len(), 2);
    assert_eq!(builder.files[0].relative_path(), "a.bin");
    assert_eq!(builder.files[1].relative_path(), "b.bin");
    assert_eq!(builder.files[1].file_size(), 100);
    assert_eq!(builder.files[1].compression_preference(), CompressionPreference::Lz4);
    assert_eq!(builder.files[1].solid_type(), SolidPreference::NoSolid);
    assert!(matches!(builder.files[1].input_data_provider(), InputDataSource::FilePath(p) if p.as_str() == "b.bin"));
}

#[test]
fn new_creates_with_defaults() {
    let params = AddFileParams::new("test.txt".into());
    assert_eq!(params.relative_path, "test.txt");
    assert!(matches!(params.compression_preference, CompressionPreference::NoPreference));
    assert!(matches!(params.solid_type, SolidPreference::Default));
}

#[test]
fn with_options_sets_all_fields() {
    let params = AddFileParams::with_options("test.txt".into(), CompressionPreference::Lz4, SolidPreference::NoSolid);

    assert_eq!(params.relative_path, "test.txt");
    assert!(matches!(params.compression_preference, CompressionPreference::Lz4));
    assert!(matches!(params.solid_type, SolidPreference::NoSolid));
}

#[test]
fn can_set_preferences() {
    let file = PackerFile::new("test.txt".to_string(), 5, InputDataSource::Stream(3))
        .with_compression(CompressionPreference::Lz4)
        .with_solid(SolidPreference::NoSolid);
    assert_eq!(file.relative_path(), "test.txt");
    assert_eq!(file.file_size(), 5);
    assert_eq!(file.compression_preference(), CompressionPreference::Lz4);
    assert_eq!(file.solid_type(), SolidPreference::NoSolid);
    let plain = PackerFile::new("x".to_string(), 1, InputDataSource::Stream(0));
    assert_eq!(plain.compression_preference(), CompressionPreference::NoPreference);
    assert_eq!(plain.solid_type(), SolidPreference::Default);
}

#[test]
fn deduplication_flags_default_values() {
    let settings = PackingSettings::new(CORES);
    assert!(!settings.enable_chunked_deduplication);
    assert!(settings.enable_solid_deduplication);
}

fn sanitized(mut settings: PackingSettings) -> PackingSettings {
    settings.sanitize();
    settings
}

#[test]
fn chunk_size_is_clamped() {
    for (chunk_size, expected) in [(1_073_741_825u32, MAX_CHUNK_SIZE), (u32::MAX, MAX_CHUNK_SIZE), (0u32, MIN_CHUNK_SIZE)] {
        let mut settings = PackingSettings::new(CORES);
        settings.chunk_size = chunk_size;
        settings.block_size = MIN_BLOCK_SIZE;
        assert_eq!(sanitized(settings).chunk_size, expected);
    }
}

#[test]
fn block_size_is_clamped() {
    for (value, expected) in [
        (MAX_BLOCK_SIZE + 1, MAX_BLOCK_SIZE),
        (u32::MAX, MAX_BLOCK_SIZE),
        (MIN_BLOCK_SIZE - 1, MIN_BLOCK_SIZE),
        (0u32, MIN_BLOCK_SIZE),
    ] {
        let mut settings = PackingSettings::new(CORES);
        settings.block_size = value;
        assert_eq!(sanitized(settings).block_size, expected);
    }
}

#[test]
fn chunk_size_must_be_greater_than_block_size() {
    for (block_size, chunk_size) in [
        (32_767u32, 4_194_304u32),
        (MAX_BLOCK_SIZE, MAX_BLOCK_SIZE + 1),
        (MIN_BLOCK_SIZE - 1, MIN_CHUNK_SIZE),
        (67_108_862u32, MAX_BLOCK_SIZE),
        (MAX_BLOCK_SIZE, 4_194_304u32),
        (4_194_305u32, 4_194_304u32),
        (MAX_BLOCK_SIZE, 67_108_862u32),
    ] {
        let mut settings = PackingSettings::new(CORES);
        settings.block_size = block_size;
        settings.chunk_size = chunk_size;
        let settings = sanitized(settings);
        assert!(settings.chunk_size > settings.block_size);
    }
}

#[test]
fn block_and_chunk_sizes_become_powers_of_two() {
    let mut settings = PackingSettings::new(CORES);
    settings.block_size = 5000;
    settings.chunk_size = 40_000;
    let settings = sanitized(settings);
    assert_eq!(settings.block_size, 8191);
    assert_eq!(settings.chunk_size, 65536);
    // Sanitizing again changes nothing.
    assert_eq!(sanitized(settings), settings);
    // A chunk not above the block is raised past it.
    let mut small_chunk = PackingSettings::new(CORES);
    small_chunk.block_size = 100_000;
    small_chunk.chunk_size = 40_000;
    let small_chunk = sanitized(small_chunk);
    assert_eq!(small_chunk.block_size, 131_071);
    assert_eq!(small_chunk.chunk_size, 131_072);
}

#[test]
fn zstandard_level_is_clamped() {
    for (value, expected) in [(23, 22), (i32::MAX, 22), (0, 0), (i32::MIN, -5)] {
        let mut settings = PackingSettings::new(CORES);
        settings.solid_compression_level = value;
        settings.solid_block_algorithm = CompressionPreference::ZStandard;
        assert_eq!(sanitized(settings).solid_compression_level, expected);
    }
}

#[test]
fn lz4_level_is_clamped() {
    for (value, expected) in [(13, 12), (i32::MAX, 12), (0, 1), (i32::MIN, 1)] {
        let mut settings = PackingSettings::new(CORES);
        settings.chunked_file_algorithm = CompressionPreference::Lz4;
        settings.chunked_compression_level = value;
        assert_eq!(sanitized(settings).chunked_compression_level, expected);
    }
}

#[test]
fn copy_level_is_one() {
    let mut settings = PackingSettings::new(CORES);
    settings.solid_block_algorithm = CompressionPreference::Copy;
    settings.solid_compression_level = 7;
    assert_eq!(sanitized(settings).solid_compression_level, 1);
}

#[test]
fn max_num_threads_is_clamped() {
    for (value, expected) in [(u32::MAX, u32::MAX), (1, 1), (0, 1)] {
        let mut settings = PackingSettings::new(CORES);
        settings.max_num_threads = value;
        assert_eq!(sanitized(settings).max_num_threads, expected);
    }
}

#[test]
fn next_power_of_two_values() {
    assert_eq!(next_power_of_two(1), 1);
    assert_eq!(next_power_of_two(2), 2);
    assert_eq!(next_power_of_two(3), 4);
    assert_eq!(next_power_of_two(4096), 4096);
    assert_eq!(next_power_of_two(4097), 8192);
    assert_eq!(next_power_of_two(0x8000_0000), 0x8000_0000);
}

#[test]
fn from_array_provider_has_valid_range() {
    let data = [10, 20, 30, 40, 50];
    let provider = FromSliceReferenceProvider::new(&data);

    let file_data = provider.get_file_data(1, 3);
    assert_eq!(file_data.data(), &[20, 30, 40]);
}

fn create_test_block(data: Vec<u8>) -> Arc<Vec<u8>> {
    Arc::new(data)
}

fn entry_at(offset: u32, size: u64) -> FileEntry {
    FileEntry { decompressed_block_offset: offset, decompressed_size: size, ..Default::default() }
}

#[test]
fn from_existing_nx_block_can_create_provider() {
    let block = create_test_block(vec![1, 2, 3, 4, 5]);
    let entry = entry_at(0, 5);

    let provider = FromExistingNxBlock::new(block, &entry);
    assert_eq!(provider.block_offset(), 0);
    assert_eq!(provider.file_size(), 5);
}

#[test]
fn from_existing_nx_block_can_read_file_data() {
    let block = create_test_block(vec![1, 2, 3, 4, 5]);
    let entry = entry_at(0, 5);
    let provider = FromExistingNxBlock::new(block, &entry);
    let file_data = provider.get_file_data(0, 5);
    assert_eq!(file_data.data(), &[1, 2, 3, 4, 5]);
}

#[test]
fn can_read_with_offset() {
    let block = create_test_block(vec![1, 2, 3, 4, 5, 6, 7, 8]);
    let entry = entry_at(2, 4);
    let provider = FromExistingNxBlock::new(block, &entry);
    let file_data = provider.get_file_data(0, 4);
    assert_eq!(file_data.data(), &[3, 4, 5, 6]);
}

#[test]
fn multiple_providers_share_block() {
    let block = create_test_block(vec![1, 2, 3, 4, 5, 6, 7, 8]);
    let entry1 = entry_at(0, 3);
    let entry2 = entry_at(3, 3);

    let provider1 = FromExistingNxBlock::new(Arc::clone(&block), &entry1);
    let provider2 = FromExistingNxBlock::new(block, &entry2);

    let data1 = provider1.get_file_data(0, 3);
    let data2 = provider2.get_file_data(0, 3);

    assert_eq!(data1.data(), &[1, 2, 3]);
    assert_eq!(data2.data(), &[4, 5, 6]);
}

#[test]
fn handles_empty_file() {
    let block = create_test_block(vec![1, 2, 3]);
    let entry = entry_at(0, 0);
    let provider = FromExistingNxBlock::new(block, &entry);
    let file_data = provider.get_file_data(0, 0);
    assert_eq!(file_data.data().len(), 0);
}

#[test]
fn small_file_entry_takes_the_extraction_fields() {
    let entry = FileEntry::new(9, 100, 7, 3, 2);
    assert_eq!(SmallFileEntry::from_entry(entry), SmallFileEntry::new(100, 7, 2));
}

fn file_of(path: &str, size: u64) -> PackerFile<'static> {
    PackerFile::new(path.to_string(), size, InputDataSource::Stream(0))
}

#[test]
fn init_toc_creation_picks_a_format_and_sorts_files() {
    let mut files = vec![file_of("b.txt", 10), file_of("a.txt", 5000), file_of("c/d.txt", 3)];
    let info = init_toc_creation(&mut files, &[100, 2000], 4096, 0, false).unwrap();
    assert_eq!(files[0].relative_path(), "a.txt");
    assert_eq!(files[1].relative_path(), "b.txt");
    assert_eq!(files[2].relative_path(), "c/d.txt");
    assert!(info.can_create_chunks);
    assert_eq!(info.max_decomp_block_offset, 2000);
    // Offsets rule out Preset 3; without hashes FEF64 is next.
    assert_eq!(info.format, ToCFormat::FEF64);
    assert_eq!(info.table_size as usize, 8 + 16 * 3 + 4 * 2 + info.string_pool.len());

    let mut small = vec![file_of("x", 1)];
    let info = init_toc_creation(&mut small, &[0], 4096, 0, true).unwrap();
    assert!(!info.can_create_chunks);
    assert_eq!(info.format, ToCFormat::Preset3);
}

#[test]
fn builder_info_reports_unsuitable_counts() {
    // Too many files for the presets, and too wide for FEF64 with such a large file.
    let result = builder_info_from_pool(vec![0u8; 10], u64::MAX, true, 0x7FFF_FFFF, 4, 0x40000, true);
    assert_eq!(result, Err(InitError::NoSuitableTocFormat(ToCFormat::Error)));
    let ok = builder_info_from_pool(vec![0u8; 10], 100, false, 0, 1, 1, false).unwrap();
    assert_eq!(ok.format, ToCFormat::Preset3NoHash);
    assert_eq!(ok.table_size, 8 + 8 + 4 + 10);
}

#[test]
fn try_init_toc_creation_gives_what_init_gives_when_the_table_fits() {
    let mut files = vec![file_of("b.txt", 10), file_of("a.txt", 5000), file_of("c/d.txt", 3)];
    let mut again = vec![file_of("b.txt", 10), file_of("a.txt", 5000), file_of("c/d.txt", 3)];
    let tried = try_init_toc_creation(&mut files, &[100, 2000], 4096, 0, false).unwrap().unwrap();
    let info = init_toc_creation(&mut again, &[100, 2000], 4096, 0, false).unwrap();
    assert_eq!(tried, info);
    assert_eq!(files[0].relative_path(), "a.txt");
    assert_eq!(tried.format, ToCFormat::FEF64);
}
