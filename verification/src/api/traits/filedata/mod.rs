/// Read access to the bytes of a file.
pub mod file_data;
/// Types for writing the files of an archive.
pub mod writeonly;
