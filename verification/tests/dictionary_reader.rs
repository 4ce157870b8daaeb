use sewer56_archives_nx::headers::parser::dictionary::dictionary_builder::{
    DictionariesHeader, DictionariesPayloadHeader, DictionarySerializeError, NO_DICTIONARY_INDEX,
};
use sewer56_archives_nx::headers::parser::dictionary::dictionary_builder_wrappers::{
    deserialize_dictionary_data, serialize_dictionary_data, serialize_dictionary_payload,
};
use sewer56_archives_nx::headers::parser::dictionary::dictionary_reader::{
    extract_payload_with_allocator, parse_payload_with_allocator, DictionaryReadError,
    ExtractPayloadResult,
};

fn header_of(data: &[u8]) -> DictionariesHeader {
    DictionariesHeader(u64::from_le_bytes(data[0..8].try_into().unwrap()))
}

#[test]
fn can_serialize_deserialize_basic_dictionary() {
    for compress in [false, true] {
        let dict1: Vec<u8> = (0..100).collect();
        let dict2: Vec<u8> = (0..50).collect();
        let dictionaries = vec![dict1.as_slice(), dict2.as_slice()];
        let blocks = vec![0u32, 0, 0, 1, 1, 0, 0];
        let serialized = serialize_dictionary_data(&dictionaries, &blocks, true, compress).unwrap();
        let deserialized = deserialize_dictionary_data(&serialized).unwrap();
        assert_eq!(deserialized.get_dictionary_for_block_unchecked(0), &dict1);
        assert_eq!(deserialized.get_dictionary_for_block_unchecked(1), &dict1);
        assert_eq!(deserialized.get_dictionary_for_block_unchecked(2), &dict1);
        assert_eq!(deserialized.get_dictionary_for_block_unchecked(3), &dict2);
        assert_eq!(deserialized.get_dictionary_for_block_unchecked(4), &dict2);
        assert_eq!(deserialized.get_dictionary_for_block_unchecked(5), &dict1);
        assert_eq!(deserialized.get_dictionary_for_block_unchecked(6), &dict1);
    }
}

#[test]
fn can_serialize_deserialize_empty_dictionaries() {
    for compress in [false, true] {
        let dict1: Vec<u8> = vec![];
        let dict2: Vec<u8> = vec![];
        let dictionaries = vec![dict1.as_slice(), dict2.as_slice()];
        let blocks = vec![0u32, 1, 0];
        let serialized = serialize_dictionary_data(&dictionaries, &blocks, true, compress).unwrap();
        let deserialized = deserialize_dictionary_data(&serialized).unwrap();
        assert!(deserialized.get_dictionary_for_block_unchecked(0).is_empty());
        assert!(deserialized.get_dictionary_for_block_unchecked(1).is_empty());
        assert!(deserialized.get_dictionary_for_block_unchecked(2).is_empty());
    }
}

#[test]
fn can_serialize_deserialize_with_no_dictionary_blocks() {
    for compress in [false, true] {
        let dict1: Vec<u8> = (0..100).collect();
        let dictionaries = vec![dict1.as_slice()];
        let none = NO_DICTIONARY_INDEX as u32;
        let blocks = vec![0u32, none, 0, none, 0];
        let serialized = serialize_dictionary_data(&dictionaries, &blocks, true, compress).unwrap();
        let deserialized = deserialize_dictionary_data(&serialized).unwrap();
        assert_eq!(deserialized.get_dictionary_for_block_unchecked(0), &dict1);
        assert!(deserialized.get_dictionary_for_block_unchecked(1).is_empty());
        assert_eq!(deserialized.get_dictionary_for_block_unchecked(2), &dict1);
        assert!(deserialized.get_dictionary_for_block_unchecked(3).is_empty());
        assert_eq!(deserialized.get_dictionary_for_block_unchecked(4), &dict1);
    }
}

#[test]
fn can_serialize_deserialize_without_hashes() {
    let dict1: Vec<u8> = vec![9, 8, 7];
    let dictionaries = vec![dict1.as_slice()];
    let serialized = serialize_dictionary_data(&dictionaries, &[0u32, 0], false, false).unwrap();
    // 8 byte section header, 8 byte payload header, 2 mapping bytes, 2 bytes of padding,
    // 4 bytes of size, then the dictionary.
    assert_eq!(serialized.len(), 8 + 8 + 2 + 2 + 4 + 3);
    let deserialized = deserialize_dictionary_data(&serialized).unwrap();
    assert_eq!(deserialized.get_dictionary_for_block_unchecked(1), &dict1);
}

#[test]
fn insufficient_dict_header_bytes() {
    let data = vec![1, 2, 3, 4, 5, 6, 7];
    let result = deserialize_dictionary_data(&data);
    assert!(matches!(result,
        Err(DictionaryReadError::InsufficientData(err)) if err.available == 7 && err.expected == DictionariesHeader::SIZE_BYTES as u32));
}

#[test]
fn insufficient_compressed_data() {
    for compress in [false, true] {
        let dict1: Vec<u8> = vec![1, 2, 3];
        let dictionaries = vec![dict1.as_slice()];
        let mut serialized = serialize_dictionary_data(&dictionaries, &[0u32], true, compress).unwrap();
        serialized.truncate(serialized.len() - 1);
        let result = deserialize_dictionary_data(&serialized);
        assert!(matches!(result, Err(DictionaryReadError::InsufficientData(_))));
    }
}

#[test]
fn insufficient_payload_header_size() {
    for compress in [false, true] {
        let dict1: Vec<u8> = vec![];
        let dictionaries = vec![dict1.as_slice()];
        let mut serialized = serialize_dictionary_data(&dictionaries, &[0u32], true, compress).unwrap();
        let mut header = header_of(&serialized);
        header.set_decompressed_size(DictionariesPayloadHeader::SIZE_BYTES as u32 - 1);
        serialized[0..8].copy_from_slice(&header.0.to_le_bytes());
        let result = deserialize_dictionary_data(&serialized);
        assert!(matches!(result, Err(DictionaryReadError::InsufficientPayloadSize)));
    }
}

#[test]
fn decompressed_size_too_big() {
    let dict1: Vec<u8> = vec![1, 2, 3];
    let dictionaries = vec![dict1.as_slice()];
    let mut serialized = serialize_dictionary_data(&dictionaries, &[0u32], true, true).unwrap();
    let mut header = header_of(&serialized);
    header.set_decompressed_size(1000);
    serialized[0..8].copy_from_slice(&header.0.to_le_bytes());
    let result = deserialize_dictionary_data(&serialized);
    assert!(matches!(result,
        Err(DictionaryReadError::DecompressedSizeMismatch(expected, _actual)) if expected == 1000));
}

#[test]
fn invalid_dictionary_index() {
    for compress in [false, true] {
        let dict1: Vec<u8> = vec![1, 2, 3];
        let dictionaries = vec![dict1.as_slice()];
        let serialized = serialize_dictionary_data(&dictionaries, &[2u32], true, compress).unwrap();
        let result = deserialize_dictionary_data(&serialized);
        assert!(matches!(result,
            Err(DictionaryReadError::InvalidDictionaryIndex(index, num_dicts)) if index == 2 && num_dicts == 1));
    }
}

#[test]
fn out_of_bounds_block_access() {
    for compress in [false, true] {
        let dict1: Vec<u8> = vec![1, 2, 3];
        let dictionaries = vec![dict1.as_slice()];
        let serialized = serialize_dictionary_data(&dictionaries, &[0u32], true, compress).unwrap();
        let dictionary_data = deserialize_dictionary_data(&serialized).unwrap();
        assert!(dictionary_data.get_dictionary_for_block_unchecked(100).is_empty());
    }
}

fn rebuild_uncompressed(payload: &[u8]) -> Vec<u8> {
    let header = DictionariesHeader::new(0, 0, 0, payload.len() as u32);
    let mut serialized = Vec::new();
    serialized.extend_from_slice(&header.0.to_le_bytes());
    serialized.extend_from_slice(payload);
    serialized
}

#[test]
fn invalid_block_length_data() {
    let dict1: Vec<u8> = vec![1, 2, 3];
    let dictionaries = vec![dict1.as_slice()];
    let serialized = serialize_dictionary_data(&dictionaries, &[0u32], true, false).unwrap();
    let mut payload_result = extract_payload_with_allocator(&serialized).unwrap();
    payload_result.decompressed_data[9] = 255;
    let serialized = rebuild_uncompressed(&payload_result.decompressed_data);
    let result = deserialize_dictionary_data(&serialized);
    assert!(matches!(result, Err(DictionaryReadError::InvalidDictionaryBlockLengthData)));
}

#[test]
fn insufficient_payload_size() {
    let dict1: Vec<u8> = vec![1, 2, 3];
    let dictionaries = vec![dict1.as_slice()];
    let serialized = serialize_dictionary_data(&dictionaries, &[0u32], true, false).unwrap();
    let mut payload_result = extract_payload_with_allocator(&serialized).unwrap();
    let slice = &mut payload_result.decompressed_data;
    let old = DictionariesPayloadHeader(u64::from_le_bytes(slice[0..8].try_into().unwrap()));
    let header = DictionariesPayloadHeader::new(1000, 2000, old.last_dict_block_index(), old.has_hashes() != 0);
    slice[0..8].copy_from_slice(&header.0.to_le_bytes());
    let serialized = rebuild_uncompressed(slice);
    let result = deserialize_dictionary_data(&serialized);
    assert!(matches!(result, Err(DictionaryReadError::InsufficientData(_))));
}

#[test]
fn insufficient_raw_data_content() {
    let dict1: Vec<u8> = vec![1, 2, 3];
    let dictionaries = vec![dict1.as_slice()];
    let serialized = serialize_dictionary_data(&dictionaries, &[0u32], true, false).unwrap();
    let mut payload_result = extract_payload_with_allocator(&serialized).unwrap();
    let slice = &mut payload_result.decompressed_data;
    slice[12..16].copy_from_slice(&1000000u32.to_le_bytes());
    let serialized = rebuild_uncompressed(slice);
    let result = deserialize_dictionary_data(&serialized);
    assert!(matches!(result, Err(DictionaryReadError::InsufficientData(_))));
}

#[test]
fn trailing_blocks_without_dictionary_are_not_recorded() {
    // The section writes the mappings of every block but records the blocks only up to
    // the last one that uses a dictionary, so trailing blocks without one are rejected.
    let dict1: Vec<u8> = vec![1, 2, 3];
    let dictionaries = vec![dict1.as_slice()];
    let none = NO_DICTIONARY_INDEX as u32;
    let serialized = serialize_dictionary_data(&dictionaries, &[0u32, none], false, false).unwrap();
    let result = deserialize_dictionary_data(&serialized);
    assert!(matches!(result, Err(DictionaryReadError::InvalidDictionaryBlockLengthData)));
}

#[test]
fn serialize_rejects_bad_input() {
    let dict1: Vec<u8> = vec![1];
    let too_many: Vec<&[u8]> = vec![dict1.as_slice(); 255];
    assert_eq!(
        serialize_dictionary_data(&too_many, &[0u32], false, false),
        Err(DictionarySerializeError::TooManyDictionaries)
    );
    let dictionaries = vec![dict1.as_slice()];
    let no_blocks: Vec<u32> = vec![];
    assert_eq!(
        serialize_dictionary_data(&dictionaries, &no_blocks, false, false),
        Err(DictionarySerializeError::NoBlocks)
    );
    let big = vec![0u8; 0x1000_0000];
    let dictionaries = vec![big.as_slice()];
    assert_eq!(
        serialize_dictionary_data(&dictionaries, &[0u32], false, false),
        Err(DictionarySerializeError::DecompressedSizeTooLarge)
    );
}

#[test]
fn serialize_payload_header_declares_sizes() {
    let dict1: Vec<u8> = vec![5; 64];
    let dictionaries = vec![dict1.as_slice()];
    let result = serialize_dictionary_payload(&dictionaries, &[0u32, 0], true).unwrap();
    assert_eq!(result.dict_header.compressed_size() as usize, result.payload.len());
    // 8 + 2 + 2 (padding) + 4 + 8 (hash) = 24 bytes of header sections, then 64 bytes.
    assert_eq!(result.dict_header.decompressed_size(), 24 + 64);
    let raw = zstd::bulk::decompress(&result.payload, 1000).unwrap();
    assert_eq!(raw.len(), 88);
    assert_eq!(
        u64::from_le_bytes(raw[16..24].try_into().unwrap()),
        xxhash_rust::xxh3::xxh3_64(&dict1)
    );
    let parsed = parse_payload_with_allocator(&ExtractPayloadResult { decompressed_data: raw }).unwrap();
    assert_eq!(parsed.get_dictionary_for_block_unchecked(1), &dict1);
}
