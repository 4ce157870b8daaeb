/// Table of contents header for Version 0 and Version 1.
pub mod native_toc_header_v0v1;
/// The packed offset, path index and block index of a V0/V1 file entry.
pub mod offset_path_index_tuple;
/// File entry of the V1 layout.
pub mod native_file_entry_v1;
