/// Has a numbered dictionary index attached to the item.
pub mod has_dict_index;
/// Has a relative path inside the archive.
pub mod has_relative_path;
/// Has a file size.
pub mod has_file_size;
/// Has a preferred compression.
pub mod has_compression_preference;
/// Has a preference on SOLID packing.
pub mod has_solid_type;
/// Access to the bytes of files.
pub mod filedata;
/// Items that can provide the bytes of a file.
pub mod can_provide_input_data;
