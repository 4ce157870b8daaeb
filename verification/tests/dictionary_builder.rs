use sewer56_archives_nx::headers::parser::dictionary::dictionary_builder::{
    calculate_payload_header_size, create_dictionary_mappings_with_allocator,
    DictionariesHeader, DictionariesPayloadHeader, DictionaryMapping, DictionarySerializeError,
    NO_DICTIONARY_INDEX,
};

fn create_dictionary_mappings(
    blocks: &[u32],
    last_block_with_dictionary_count: &mut u32,
) -> Result<Vec<DictionaryMapping>, DictionarySerializeError> {
    create_dictionary_mappings_with_allocator(blocks, last_block_with_dictionary_count)
}

#[test]
fn calc_size_can_calculate_min_size_dictionary() {
    let size = calculate_payload_header_size(0, 0, true);
    assert_eq!(size, 8);
}

#[test]
fn calc_size_can_handle_single_mapping_and_dictionary() {
    let size = calculate_payload_header_size(1, 1, true);
    assert_eq!(size, 24);
}

#[test]
fn calc_size_can_handle_multiple_mappings_and_dictionaries() {
    let size = calculate_payload_header_size(5, 3, true);
    assert_eq!(size, 56);
}

#[test]
fn calc_size_handles_alignment_padding_correctly() {
    let size = calculate_payload_header_size(3, 2, true);
    assert_eq!(size, 40);
}

#[test]
fn calc_size_can_handle_large_dictionary_counts() {
    let size = calculate_payload_header_size(1000, 100, true);
    assert_eq!(size, 3208);
}

#[test]
fn calc_size_without_hashes_skips_hash_section() {
    // 8 + 2 = 10, aligned to 12, + 4 = 16; no 8 byte alignment or hashes.
    assert_eq!(calculate_payload_header_size(1, 1, false), 16);
    // 8 + 6 = 14, aligned to 16, + 12 = 28.
    assert_eq!(calculate_payload_header_size(3, 3, false), 28);
}

#[test]
fn create_mappings_can_create_single_mapping() {
    let blocks = vec![1u32, 1, 1];
    let mut last_block_idx = 0;
    let mappings = create_dictionary_mappings(&blocks, &mut last_block_idx).unwrap();
    assert_eq!(
        mappings,
        vec![DictionaryMapping {
            dictionary_index: 1,
            num_blocks: 3
        }]
    );
    assert_eq!(last_block_idx, 3);
}

#[test]
fn create_mappings_can_handle_different_dictionaries() {
    let blocks = vec![1u32, 1, 2, 2];
    let mut last_block_idx = 0;
    let mappings = create_dictionary_mappings(&blocks, &mut last_block_idx).unwrap();
    assert_eq!(
        mappings,
        vec![
            DictionaryMapping {
                dictionary_index: 1,
                num_blocks: 2
            },
            DictionaryMapping {
                dictionary_index: 2,
                num_blocks: 2
            },
        ]
    );
    assert_eq!(last_block_idx, 4);
}

#[test]
fn create_mappings_handles_max_block_count_split() {
    let blocks = vec![1u32; 300];
    let mut last_block_idx = 0;
    let mappings = create_dictionary_mappings(&blocks, &mut last_block_idx).unwrap();
    assert_eq!(
        mappings,
        vec![
            DictionaryMapping {
                dictionary_index: 1,
                num_blocks: 255
            },
            DictionaryMapping {
                dictionary_index: 1,
                num_blocks: 45
            },
        ]
    );
    assert_eq!(last_block_idx, 300);
}

#[test]
fn create_mappings_can_handle_empty_block_list() {
    let blocks: Vec<u32> = vec![];
    let mut last_block_idx = 0;
    let mappings = create_dictionary_mappings(&blocks, &mut last_block_idx).unwrap();
    assert_eq!(mappings.len(), 0);
    assert_eq!(last_block_idx, 0);
}

#[test]
fn create_mappings_can_handle_mixed_dictionary_sequence() {
    let blocks = vec![1u32, 1, 2, 1, 1];
    let mut last_block_idx = 0;
    let mappings = create_dictionary_mappings(&blocks, &mut last_block_idx).unwrap();
    assert_eq!(
        mappings,
        vec![
            DictionaryMapping {
                dictionary_index: 1,
                num_blocks: 2
            },
            DictionaryMapping {
                dictionary_index: 2,
                num_blocks: 1
            },
            DictionaryMapping {
                dictionary_index: 1,
                num_blocks: 2
            },
        ]
    );
    assert_eq!(last_block_idx, 5);
}

#[test]
fn create_mappings_handles_no_dictionary_blocks() {
    let none = NO_DICTIONARY_INDEX as u32;
    let blocks = vec![1u32, none, 2, none, none];
    let mut last_block_idx = 0;
    let mappings = create_dictionary_mappings(&blocks, &mut last_block_idx).unwrap();
    assert_eq!(
        mappings,
        vec![
            DictionaryMapping {
                dictionary_index: 1,
                num_blocks: 1
            },
            DictionaryMapping {
                dictionary_index: NO_DICTIONARY_INDEX,
                num_blocks: 1
            },
            DictionaryMapping {
                dictionary_index: 2,
                num_blocks: 1
            },
            DictionaryMapping {
                dictionary_index: NO_DICTIONARY_INDEX,
                num_blocks: 2
            },
        ]
    );
    assert_eq!(last_block_idx, 3);
}

#[test]
fn create_mappings_handles_trailing_dictionary_blocks() {
    let none = NO_DICTIONARY_INDEX as u32;
    let blocks = vec![none, none, 1, 2, 2];
    let mut last_block_idx = 0;
    let mappings = create_dictionary_mappings(&blocks, &mut last_block_idx).unwrap();
    assert_eq!(
        mappings,
        vec![
            DictionaryMapping {
                dictionary_index: NO_DICTIONARY_INDEX,
                num_blocks: 2
            },
            DictionaryMapping {
                dictionary_index: 1,
                num_blocks: 1
            },
            DictionaryMapping {
                dictionary_index: 2,
                num_blocks: 2
            },
        ]
    );
    assert_eq!(last_block_idx, 5);
}

#[test]
fn create_mappings_leaves_count_alone_when_no_block_uses_a_dictionary() {
    let none = NO_DICTIONARY_INDEX as u32;
    let blocks = vec![none, none];
    let mut last_block_idx = 7;
    let mappings = create_dictionary_mappings(&blocks, &mut last_block_idx).unwrap();
    assert_eq!(mappings.len(), 1);
    assert_eq!(last_block_idx, 7);
}

#[test]
fn dictionaries_header_round_trips_fields() {
    let header = DictionariesHeader::new(6, 5, 123_456, 7_654_321);
    assert_eq!(header.reserved(), 6);
    assert_eq!(header.version(), 5);
    assert_eq!(header.compressed_size(), 123_456);
    assert_eq!(header.decompressed_size(), 7_654_321);
}

#[test]
fn dictionaries_header_fields_do_not_overlap() {
    let header = DictionariesHeader::new(31, 15, 0x07FF_FFFF, 0x0FFF_FFFF);
    assert_eq!(header.0, u64::MAX);
    let header = DictionariesHeader::new(0, 8, 0, 0);
    assert_eq!(header.reserved(), 0);
    assert_eq!(header.version(), 8);
    let header = DictionariesHeader::new(1, 0, 0, 0);
    assert_eq!(header.reserved(), 1);
    assert_eq!(header.version(), 0);
    let header = DictionariesHeader::new(0, 0, 0x07FF_FFFF, 0);
    assert_eq!(header.version(), 0);
    assert_eq!(header.compressed_size(), 0x07FF_FFFF);
    let header = DictionariesHeader::new(0, 1, 0, 0);
    assert_eq!(header.version(), 1);
    assert_eq!(header.compressed_size(), 0);
}

#[test]
fn dictionaries_header_truncates_to_field_width() {
    let header = DictionariesHeader::new(0, 0, 0, 0x1000_0001);
    assert_eq!(header.decompressed_size(), 1);
}

#[test]
fn payload_header_round_trips_fields() {
    let header = DictionariesPayloadHeader::new(12, 3456, 78_901, true);
    assert_eq!(header.num_dictionaries(), 12);
    assert_eq!(header.num_mappings(), 3456);
    assert_eq!(header.last_dict_block_index(), 78_901);
    assert_eq!(header.has_hashes(), 1);
    let header = DictionariesPayloadHeader::new(1, 1, 1, false);
    assert_eq!(header.has_hashes(), 0);
}
