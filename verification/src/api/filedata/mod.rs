/// Sources of the files to pack.
pub mod input;
/// File data shared by the sources.
pub mod shared;
