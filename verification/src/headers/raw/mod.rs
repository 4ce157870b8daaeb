/// The main file header of an archive.
pub mod native_file_header;
/// The table of contents header (V0 and V1 layout).
pub mod native_toc_header;
/// Table of contents layouts.
pub mod toc;
/// Block entries of the table of contents.
pub mod native_toc_block_entry;
/// Conversion between native and managed file entries.
pub mod native_file_entry;
