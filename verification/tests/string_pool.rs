use sewer56_archives_nx::headers::parser::string_pool::StringPool;
use sewer56_archives_nx::headers::parser::string_pool_common::{
    contains, len, StringPoolFormat, StringPoolPackError, StringPoolUnpackError,
};
use sewer56_archives_nx::headers::raw::native_toc_header::NativeTocHeader;
use sewer56_archives_nx::utilities::compression::zstd::{
    get_decompressed_size, max_alloc_for_compress_size, GetDecompressedSizeError,
};

const FORMATS: [StringPoolFormat; 2] = [StringPoolFormat::V0, StringPoolFormat::VPrefix];

fn strings(paths: &[&str]) -> Vec<String> {
    paths.iter().map(|p| p.to_string()).collect()
}

#[test]
fn can_pack_and_unpack() {
    for format in FORMATS {
        let mut items = strings(&[
            "data/textures/cat.png",
            "data/textures/dog.png",
            "data/models/house.obj",
        ]);
        let packed = StringPool::pack(&mut items, format).unwrap();
        let unpacked = StringPool::unpack(&packed, items.len(), format).unwrap();
        for item in &items {
            assert!(unpacked.contains(item));
        }
        let sorted_paths: Vec<&str> = unpacked.iter();
        assert_eq!(
            sorted_paths,
            vec![
                "data/models/house.obj",
                "data/textures/cat.png",
                "data/textures/dog.png"
            ]
        );
        // The items themselves were sorted in place.
        assert_eq!(items[0], "data/models/house.obj");
    }
}

#[test]
fn can_pack_empty_list() {
    for format in FORMATS {
        let mut items: Vec<String> = Vec::new();
        let packed = StringPool::pack(&mut items, format).unwrap();
        assert!(!packed.is_empty());
        let unpacked = StringPool::unpack(&packed, 0, format).unwrap();
        assert_eq!(unpacked.len(), 0);
        assert!(unpacked.is_empty());
    }
}

#[test]
fn can_pack_large_list() {
    for format in FORMATS {
        let mut items: Vec<String> = (0..10000).map(|i| format!("file_{:05}.txt", i)).collect();
        let packed = StringPool::pack(&mut items, format).unwrap();
        let unpacked = StringPool::unpack(&packed, items.len(), format).unwrap();
        assert_eq!(unpacked.len(), items.len());
        for x in 0..unpacked.len() {
            assert_eq!(items[x], unpacked.get_unchecked(x));
        }
    }
}

#[test]
fn unpack_invalid_data() {
    for format in FORMATS {
        let invalid_data = vec![0, 1, 2, 3, 4];
        let result = StringPool::unpack(&invalid_data, 1, format);
        assert!(matches!(
            result,
            Err(StringPoolUnpackError::FailedToGetDecompressedSize(_)
                | StringPoolUnpackError::FailedToDecompress(_))
        ));
    }
}

#[test]
fn pack_with_custom_allocators() {
    for format in FORMATS {
        let mut items = strings(&["data/textures/cat.png", "data/textures/dog.png"]);
        let packed = StringPool::pack_with_allocators(&mut items, format).unwrap();
        let unpacked = StringPool::unpack_with_allocators(&packed, items.len(), format).unwrap();
        assert_eq!(unpacked.len(), items.len());
        for item in &items {
            assert!(unpacked.contains(item));
        }
    }
}

#[test]
fn v0_can_use_paths_over_256chars() {
    let mut items = vec![
        "/".to_owned() + &"a".repeat(255) + "/file.txt",
        "data/textures/cat.png".to_string(),
    ];
    let packed = StringPool::pack(&mut items, StringPoolFormat::V0).unwrap();
    let unpacked = StringPool::unpack(&packed, items.len(), StringPoolFormat::V0).unwrap();
    assert_eq!(unpacked.len(), items.len());
    for item in &items {
        assert!(unpacked.contains(item));
    }
}

#[test]
fn v1_can_use_paths_up_to_255chars() {
    let mut items = vec!["/".to_owned() + &"a".repeat(254), "data/textures/cat.png".to_string()];
    let packed = StringPool::pack(&mut items, StringPoolFormat::VPrefix).unwrap();
    let unpacked = StringPool::unpack(&packed, items.len(), StringPoolFormat::VPrefix).unwrap();
    assert_eq!(unpacked.len(), items.len());
    for item in &items {
        assert!(unpacked.contains(item));
    }
}

#[test]
fn v1_cannot_use_paths_over_255chars() {
    let mut items = vec!["/".to_owned() + &"a".repeat(255), "data/textures/cat.png".to_string()];
    let result = StringPool::pack(&mut items, StringPoolFormat::VPrefix);
    assert!(matches!(result, Err(StringPoolPackError::FilePathTooLong)));
}

#[test]
fn can_use_non_ascii_paths() {
    for format in FORMATS {
        let mut items = strings(&["data/textures/猫.png", "data/models/家.obj", "data/音楽/曲.mp3"]);
        let packed = StringPool::pack(&mut items, format).unwrap();
        let unpacked = StringPool::unpack(&packed, items.len(), format).unwrap();
        assert_eq!(unpacked.len(), items.len());
        for item in &items {
            assert!(unpacked.contains(item));
        }
        let paths: Vec<&str> = unpacked.iter();
        assert_eq!(
            paths,
            vec!["data/models/家.obj", "data/textures/猫.png", "data/音楽/曲.mp3"]
        );
    }
}

#[test]
fn unpack_fails_when_zstd_frame_size_exceeds_max() {
    for format in FORMATS {
        let large_input = vec![b'A'; NativeTocHeader::MAX_STRING_POOL_SIZE + 1];
        let compressed = zstd::bulk::compress(&large_input, 1).unwrap();
        let result = StringPool::unpack(&compressed, 1, format);
        assert!(matches!(
            result,
            Err(StringPoolUnpackError::ExceededMaxSize(size)) if size == NativeTocHeader::MAX_STRING_POOL_SIZE as u32
        ));
    }
}

#[test]
fn unpack_fails_when_frame_size_missing() {
    for format in FORMATS {
        let no_frame_size = vec![
            0x28, 0xB5, 0x2F, 0xFD, 0x04, 0x00, 0x41, 0x10, 0x00, 0x00, 0x48, 0x65, 0x6C, 0x6C,
            0x6F, 0x2C, 0x20, 0x57, 0x6F, 0x72, 0x6C, 0x64, 0x21, 0x03,
        ];
        let result = StringPool::unpack(&no_frame_size, 1, format);
        assert!(matches!(
            result,
            Err(StringPoolUnpackError::FailedToGetDecompressedSize(_))
        ));
    }
}

#[test]
fn unpack_fails_when_pool_holds_fewer_paths() {
    for format in FORMATS {
        let mut items = strings(&["a.txt", "b.txt"]);
        let packed = StringPool::pack(&mut items, format).unwrap();
        let result = StringPool::unpack(&packed, 3, format);
        assert!(matches!(result, Err(StringPoolUnpackError::InvalidPoolData)));
    }
}

#[test]
fn unpack_of_fewer_paths_takes_the_first_ones() {
    // In V0 the paths are terminated, so the first ones can be read alone.
    let mut items = strings(&["b.txt", "a.txt", "c.txt"]);
    let packed = StringPool::pack(&mut items, StringPoolFormat::V0).unwrap();
    let pool = StringPool::unpack(&packed, 2, StringPoolFormat::V0).unwrap();
    assert_eq!(pool.iter(), vec!["a.txt", "b.txt"]);
    // With length prefixes, the count decides where the lengths end.
    let packed = StringPool::pack(&mut items, StringPoolFormat::VPrefix).unwrap();
    let pool = StringPool::unpack(&packed, 2, StringPoolFormat::VPrefix).unwrap();
    assert_eq!(pool.iter(), vec!["\u{5}a.tx", "tb.tx"]);
}

#[test]
fn v0_pool_decompresses_to_terminated_paths() {
    let mut items = strings(&["b", "a"]);
    let packed = StringPool::pack_v0(&mut items).unwrap();
    let raw = zstd::bulk::decompress(&packed, 100).unwrap();
    assert_eq!(raw, b"a\0b\0".to_vec());
    assert_eq!(get_decompressed_size(&packed), Ok(4));
}

#[test]
fn vprefix_pool_decompresses_to_lengths_then_paths() {
    let mut items = strings(&["bb", "a"]);
    let packed = StringPool::pack(&mut items, StringPoolFormat::VPrefix).unwrap();
    let raw = zstd::bulk::decompress(&packed, 100).unwrap();
    assert_eq!(raw, vec![1, 2, b'a', b'b', b'b']);
}

#[test]
fn unpack_v0_and_vprefix_entry_points_agree_with_unpack() {
    let mut items = strings(&["x/y", "x/z"]);
    let packed = StringPool::pack_v0(&mut items).unwrap();
    assert_eq!(StringPool::unpack_v0(&packed, 2).unwrap().iter(), vec!["x/y", "x/z"]);
    assert_eq!(StringPool::unpack_v0_with_allocators(&packed, 2).unwrap().iter(), vec!["x/y", "x/z"]);
    let packed = StringPool::pack(&mut items, StringPoolFormat::VPrefix).unwrap();
    assert_eq!(StringPool::unpack_vprefix_with_allocators(&packed, 2).unwrap().iter(), vec!["x/y", "x/z"]);
}

#[test]
fn unpack_rejects_invalid_utf8() {
    let compressed = zstd::bulk::compress(&[0xFF, 0xFE, 0x00], 1).unwrap();
    let result = StringPool::unpack(&compressed, 1, StringPoolFormat::V0);
    assert!(matches!(result, Err(StringPoolUnpackError::InvalidPoolData)));
}

#[test]
fn unpack_of_empty_frame_gives_empty_pool() {
    let compressed = zstd::bulk::compress(&[], 1).unwrap();
    let pool = StringPool::unpack(&compressed, 5, StringPoolFormat::V0).unwrap();
    assert!(pool.is_empty());
}

#[test]
fn get_returns_none_out_of_bounds() {
    let mut items = strings(&["one"]);
    let packed = StringPool::pack_v0(&mut items).unwrap();
    let pool = StringPool::unpack_v0(&packed, 1).unwrap();
    assert_eq!(pool.get(0), Some("one"));
    assert_eq!(pool.get(1), None);
}

#[test]
fn contains_is_exact() {
    let mut items = strings(&["data/textures/cat.png"]);
    let packed = StringPool::pack_v0(&mut items).unwrap();
    let pool = StringPool::unpack_v0(&packed, 1).unwrap();
    assert!(pool.contains("data/textures/cat.png"));
    assert!(!pool.contains("cat.png"));
    assert!(!pool.contains("Data/textures/cat.png"));
}

#[test]
fn common_contains_searches_raw_bytes() {
    let raw = b"data/textures/cat.pngdata/models/house.obj";
    assert!(contains(raw, "cat.png"));
    assert!(contains(raw, "house.obj"));
    assert!(!contains(raw, "dog.png"));
    assert_eq!(len(&[0, 21]), 2);
}

#[test]
fn pool_size_limit_follows_compress_bound() {
    assert_eq!(max_alloc_for_compress_size(0), 64);
    assert_eq!(max_alloc_for_compress_size(1000), 1000 + 3 + 63);
    assert_eq!(max_alloc_for_compress_size(200_000), 200_000 + 781);
    let mut items = vec!["a".repeat(NativeTocHeader::MAX_STRING_POOL_SIZE)];
    let result = StringPool::pack_v0(&mut items);
    assert!(matches!(result, Err(StringPoolPackError::PoolTooLarge)));
}

#[test]
fn get_decompressed_size_reports_errors() {
    assert_eq!(
        get_decompressed_size(&[0, 1, 2, 3, 4]),
        Err(GetDecompressedSizeError::InvalidFrameHeader)
    );
}
