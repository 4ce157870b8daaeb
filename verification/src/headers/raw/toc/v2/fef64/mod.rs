/// The table of contents header of the Flexible Entry Format.
pub mod toc_header;
/// Bit counts of the fields of an entry.
pub mod fileentrycommon;
/// File entries in the Flexible Entry Format.
pub mod fileentry8;
