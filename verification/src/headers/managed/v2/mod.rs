/// Writing the v2 table of contents.
pub mod table_of_contents_builder;
/// Reading the v2 table of contents.
pub mod table_of_contents_reader;
