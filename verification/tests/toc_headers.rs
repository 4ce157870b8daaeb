use sewer56_archives_nx::headers::enums::table_of_contents_version::TableOfContentsVersion;
use sewer56_archives_nx::headers::raw::native_toc_header::NativeTocHeader;
use sewer56_archives_nx::headers::raw::toc::native_toc_header_v2::NativeTocHeaderV2;
use sewer56_archives_nx::headers::raw::toc::native_toc_header_v3::{
    NativeTocHeaderV3, MAX_STRING_POOL_SIZE_V3,
};
use sewer56_archives_nx::headers::raw::toc::v1::native_toc_header_v0v1::NativeTocHeader as NativeTocHeaderV0V1;
use std::mem::size_of;

#[test]
fn native_toc_header_header_size_is_correct() {
    assert_eq!(size_of::<NativeTocHeader>(), NativeTocHeader::SIZE_BYTES);
}

#[test]
fn native_toc_header_can_init_max_values() {
    let header = NativeTocHeader::init(0xFFFFF, 0x3FFFF, 0xFFFFFF, TableOfContentsVersion::V1);
    assert_eq!(header.file_count(), 0xFFFFF);
    assert_eq!(header.block_count(), 0x3FFFF);
    assert_eq!(header.string_pool_size(), 0xFFFFFF);
    assert_eq!(header.get_version(), TableOfContentsVersion::V1);
}

#[test]
fn native_toc_header_values_correctly_overflow() {
    let header = NativeTocHeader::init(0x100000, 0x40000, 0x1000000, TableOfContentsVersion::V0);
    assert_eq!(header.file_count(), 0);
    assert_eq!(header.block_count(), 0);
    assert_eq!(header.string_pool_size(), 0);
}

#[test]
fn native_toc_header_is_little_endian() {
    let header = NativeTocHeader::init(0xFFFFF, 0x3FFFF, 0xFFFFFF, TableOfContentsVersion::V1);
    let le_header = header.to_le();
    assert_eq!(header.0, le_header.0);
}

#[test]
fn native_toc_header_default_vales_are_sane() {
    let header = NativeTocHeader::default();
    assert_eq!(header.file_count(), 0);
    assert_eq!(header.block_count(), 0);
    assert_eq!(header.string_pool_size(), 0);
    assert_eq!(header.get_version(), TableOfContentsVersion::V0);
}

#[test]
fn native_toc_header_v2_header_size_is_correct() {
    assert_eq!(size_of::<NativeTocHeaderV2>(), NativeTocHeaderV2::SIZE_BYTES);
}

#[test]
fn native_toc_header_v2_can_init_max_values() {
    let header = NativeTocHeaderV2::init(0x3FFFF, 0xFFFFF, 0xFFFFFF);
    assert_eq!(header.file_count(), 0x3FFFF);
    assert_eq!(header.block_count(), 0xFFFFF);
    assert_eq!(header.string_pool_size(), 0xFFFFFF);
    assert_eq!(header.get_version(), Ok(TableOfContentsVersion::V2));
}

#[test]
fn native_toc_header_v2_values_correctly_overflow() {
    let header = NativeTocHeaderV2::init(0x40000, 0x100000, 0x1000000);
    assert_eq!(header.file_count(), 0);
    assert_eq!(header.block_count(), 0);
    assert_eq!(header.string_pool_size(), 0);
}

#[test]
fn native_toc_header_v2_is_little_endian() {
    let header = NativeTocHeaderV2::init(0x3FFFF, 0xFFFFF, 0xFFFFFF);
    let le_header = header.to_le();
    assert_eq!(header.0, le_header.0);
}

#[test]
fn native_toc_header_v2_default_values_are_sane() {
    let header = NativeTocHeaderV2::default();
    assert_eq!(header.file_count(), 0);
    assert_eq!(header.block_count(), 0);
    assert_eq!(header.string_pool_size(), 0);
    assert_eq!(header.get_version(), Ok(TableOfContentsVersion::V2));
}

#[test]
fn native_toc_header_v3_header_size_is_correct() {
    assert_eq!(size_of::<NativeTocHeaderV3>(), NativeTocHeaderV3::SIZE_BYTES);
}

#[test]
fn native_toc_header_v3_can_init_max_values() {
    let header = NativeTocHeaderV3::init(0xFF, 0xFF, MAX_STRING_POOL_SIZE_V3 as u32);
    assert_eq!(header.file_count(), 0xFF);
    assert_eq!(header.block_count(), 0xFF);
    assert_eq!(header.string_pool_size(), MAX_STRING_POOL_SIZE_V3 as u64);
    assert_eq!(header.get_version(), Ok(TableOfContentsVersion::V3));
    assert_eq!(header.padding(), 0);
}

#[test]
fn native_toc_header_v3_values_correctly_overflow() {
    let header = NativeTocHeaderV3::init(256, 256, 0);
    assert_eq!(header.file_count(), 0);
    assert_eq!(header.block_count(), 0);
}

#[test]
fn native_toc_header_v3_is_little_endian() {
    let header = NativeTocHeaderV3::init(0xFF, 0xFF, MAX_STRING_POOL_SIZE_V3 as u32);
    let le_header = header.to_le();
    assert_eq!(header.0, le_header.0);
}

#[test]
fn native_toc_header_v3_default_values_are_sane() {
    let header = NativeTocHeaderV3::default();
    assert_eq!(header.file_count(), 0);
    assert_eq!(header.block_count(), 0);
    assert_eq!(header.string_pool_size(), 0);
    assert_eq!(header.get_version(), Ok(TableOfContentsVersion::V3));
    assert_eq!(header.padding(), 0);
}

#[test]
fn native_toc_header_v3_from_raw_creates_correct_header() {
    let raw: u64 = 0xC000_0000_0000_0000;
    let header = NativeTocHeaderV3::from_raw(raw);
    assert_eq!(header.get_version(), Ok(TableOfContentsVersion::V3));
    assert_eq!(header.file_count(), 0);
    assert_eq!(header.block_count(), 0);
    assert_eq!(header.string_pool_size(), 0);
    assert_eq!(header.padding(), 0);
}

#[test]
fn native_toc_header_v0v1_header_size_is_correct() {
    assert_eq!(size_of::<NativeTocHeaderV0V1>(), NativeTocHeaderV0V1::SIZE_BYTES);
}

#[test]
fn native_toc_header_v0v1_can_init_max_values() {
    let header = NativeTocHeaderV0V1::new(0xFFFFF, 0x3FFFF, 0xFFFFFF, TableOfContentsVersion::V1);
    assert_eq!(header.file_count(), 0xFFFFF);
    assert_eq!(header.block_count(), 0x3FFFF);
    assert_eq!(header.string_pool_size(), 0xFFFFFF);
    assert_eq!(header.get_version(), Ok(TableOfContentsVersion::V1));
}

#[test]
fn native_toc_header_v0v1_values_correctly_overflow() {
    let header = NativeTocHeaderV0V1::new(0x100000, 0x40000, 0x1000000, TableOfContentsVersion::V0);
    assert_eq!(header.file_count(), 0);
    assert_eq!(header.block_count(), 0);
    assert_eq!(header.string_pool_size(), 0);
}

#[test]
fn native_toc_header_v0v1_default_vales_are_sane() {
    let header = NativeTocHeaderV0V1::default();
    assert_eq!(header.file_count(), 0);
    assert_eq!(header.block_count(), 0);
    assert_eq!(header.string_pool_size(), 0);
    assert_eq!(header.get_version(), Ok(TableOfContentsVersion::V0));
}

#[test]
fn native_toc_header_v0v1_from_raw_keeps_value() {
    let header = NativeTocHeaderV0V1::from_raw(0x4000_0000_0000_0001);
    assert_eq!(header.get_version(), Ok(TableOfContentsVersion::V1));
    assert_eq!(header.file_count(), 1);
}

#[test]
fn table_of_contents_version_round_trips() {
    for v in [
        TableOfContentsVersion::V0,
        TableOfContentsVersion::V1,
        TableOfContentsVersion::V2,
        TableOfContentsVersion::V3,
    ] {
        assert_eq!(TableOfContentsVersion::try_from_u8(v.to_u8()), Ok(v));
    }
    assert_eq!(TableOfContentsVersion::try_from_u8(4), Err(4));
}
