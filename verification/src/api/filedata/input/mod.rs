/// Where the bytes of a file to pack come from.
pub mod input_data_source;
/// Files read from a byte slice.
pub mod from_slice_reference_provider;
/// Files read from a block of an existing archive.
pub mod existing_nx_block;
