use sewer56_archives_nx::headers::raw::native_file_header::NativeFileHeader;

#[test]
fn test_native_file_header_init() {
    let header = NativeFileHeader::init(1024, 8192);
    assert!(header.is_valid_magic_header());
    assert_eq!(
        header.header_data.version(),
        NativeFileHeader::CURRENT_ARCHIVE_VERSION as u32
    );
    assert_eq!(header.chunk_size_bytes(), 1024);
    assert_eq!(header.header_page_bytes(), 8192);
}

#[test]
fn test_feature_flags() {
    let header = NativeFileHeader::init(1024, 8192);
    assert_eq!(header.header_data.feature_flags(), 0);
}

#[test]
fn test_endianness() {
    let header = NativeFileHeader::init(1024, 8192);
    let le_header = header.to_le();
    assert_eq!(header.magic, le_header.magic);
    assert_eq!(header.header_data.0, le_header.header_data.0);
}

#[test]
fn test_header_page_count() {
    let header = NativeFileHeader::init(1024, 8192);
    assert_eq!(header.header_data.header_page_count(), 2);

    let header = NativeFileHeader::init(1024, 16384);
    assert_eq!(header.header_data.header_page_count(), 4);

    let header = NativeFileHeader::init(1024, 20480);
    assert_eq!(header.header_data.header_page_count(), 5);
}

#[test]
fn test_chunk_size() {
    let header = NativeFileHeader::init(512, 8192);
    assert_eq!(header.header_data.chunk_size(), 0);
    assert_eq!(header.chunk_size_bytes(), 512);

    let header = NativeFileHeader::init(1024, 8192);
    assert_eq!(header.header_data.chunk_size(), 1);
    assert_eq!(header.chunk_size_bytes(), 1024);

    let header = NativeFileHeader::init(2048, 8192);
    assert_eq!(header.header_data.chunk_size(), 2);
    assert_eq!(header.chunk_size_bytes(), 2048);

    let header = NativeFileHeader::init(513, 8192);
    assert_eq!(header.header_data.chunk_size(), 1);
    assert_eq!(header.chunk_size_bytes(), 1024);

    let header = NativeFileHeader::init(1025, 8192);
    assert_eq!(header.header_data.chunk_size(), 2);
    assert_eq!(header.chunk_size_bytes(), 2048);

    let header = NativeFileHeader::init(1_048_576, 8192);
    assert_eq!(header.header_data.chunk_size(), 11);
    assert_eq!(header.chunk_size_bytes(), 1_048_576);
}

#[test]
fn test_native_file_header_size() {
    assert_eq!(std::mem::size_of::<NativeFileHeader>(), NativeFileHeader::SIZE_BYTES);
}

#[test]
fn file_header_rounds_small_chunk_sizes_up_to_base() {
    let header = NativeFileHeader::init(0, 0);
    assert_eq!(header.chunk_size_bytes(), NativeFileHeader::BASE_CHUNK_SIZE);
    assert_eq!(header.header_page_bytes(), 0);
    let header = NativeFileHeader::init(0x8000_0000, 1);
    assert_eq!(header.chunk_size_bytes(), 0x8000_0000);
    assert_eq!(header.header_page_bytes(), 4096);
}

#[test]
fn test_magic_matches() {
    let header = NativeFileHeader::init(1024, 8192);
    assert!(header.magic_matches(0x4E58_5553));
    assert!(!header.magic_matches(0x4E58_5553_u32.swap_bytes()));
    assert!(!header.magic_matches(0));
}

#[test]
fn fresh_header_is_valid_and_default_header_is_not() {
    let header = NativeFileHeader::init(3000, 5000);
    assert!(header.is_valid_magic_header());
    assert_eq!(header.magic, 0x4E58_5553);
    assert_eq!(header.header_data.version(), 0);
    assert_eq!(header.header_data.feature_flags(), 0);
    assert_eq!(header.chunk_size_bytes(), 4096);
    assert_eq!(header.header_page_bytes(), 8192);
    assert!(!NativeFileHeader::default().is_valid_magic_header());
}
