/// Traits implemented by the items that the packer works with.
pub mod traits;
/// Enumerations of the packing API.
pub mod enums;
/// Sources and views of file data.
pub mod filedata;
/// Settings and files of the packer.
pub mod packing;
/// Builder for archives.
pub mod packer_builder;
