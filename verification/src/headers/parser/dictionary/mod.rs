/// Serialization of the dictionary section.
pub mod dictionary_builder;
/// Deserialization of the dictionary section.
pub mod dictionary_reader;
/// Whole-section serialization and deserialization of dictionaries.
pub mod dictionary_builder_wrappers;
