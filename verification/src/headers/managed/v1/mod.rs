/// Serialization of the V0 and V1 layouts.
pub mod table_of_contents_builder;
/// Deserialization of the V0 and V1 layouts.
pub mod table_of_contents_reader;
