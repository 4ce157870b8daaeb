/// Size of a compressed block.
pub mod block_size;
/// A file entry of the table of contents.
pub mod file_entry;
/// The table of contents.
pub mod table_of_contents;
/// Table of contents in the V0 and V1 layouts.
pub mod v1;
/// Table of contents in the v2 layouts (presets and the Flexible Entry Format).
pub mod v2;
