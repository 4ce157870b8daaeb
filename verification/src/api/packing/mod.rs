/// Settings of the packer.
pub mod packing_settings;
/// A file to be packed.
pub mod packer_file;
