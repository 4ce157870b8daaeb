/// File data backed by a byte slice.
pub mod array_file_data;
