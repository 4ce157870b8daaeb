/// Version of the table of contents.
pub mod table_of_contents_version;
