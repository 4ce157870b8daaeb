/// The Flexible Entry Format (64 bit entries).
pub mod fef64;
/// The preset layouts.
pub mod presets;
/// Choice of the table of contents layout.
pub mod format_selector;
/// Block entries of the v2 table of contents.
pub mod native_v2_toc_block_entry;
