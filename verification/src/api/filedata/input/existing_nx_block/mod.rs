/// Files inside a decompressed SOLID block of an existing archive.
pub mod from_existing_nx_block;
