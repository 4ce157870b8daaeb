/// The part of a file entry needed to extract a file.
pub mod output_data_provider;
