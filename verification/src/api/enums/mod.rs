/// Preferred compression of an item or block.
pub mod compression_preference;
/// Preference on SOLID packing of an item.
pub mod solid_preference;
