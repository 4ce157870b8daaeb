use crate::api::enums::compression_preference::CompressionPreference;
use crate::headers::enums::table_of_contents_version::TableOfContentsVersion;
use crate::headers::managed::block_size::BlockSize;
use crate::headers::managed::file_entry::FileEntry;
use crate::headers::parser::string_pool::StringPool;
use crate::headers::parser::string_pool_common::StringPoolUnpackError;
use vstd::prelude::*;

verus! {

/// Managed representation of the deserialized table of contents.
pub struct TableOfContents {
    /// Used formats for compression of each block.
    pub block_compressions: Vec<CompressionPreference>,
    /// Individual block sizes in this structure.
    pub blocks: Vec<BlockSize>,
    /// Individual file entries.
    pub entries: Vec<FileEntry>,
    /// String pool data.
    pub pool: StringPool,
    /// The version of the table of contents: the one that the header of a table in the
    /// V0/V1 layouts declares, and [`TableOfContentsVersion::V2`] for a table in one of
    /// the v2 layouts.
    pub version: TableOfContentsVersion,
}

/// Errors that can occur when deserializing the table of contents.
#[derive(Debug, PartialEq, Eq, Clone, Copy, Structural)]
pub enum DeserializeError {
    /// Error unpacking the string pool.
    StringPoolUnpackError(StringPoolUnpackError),
    /// Unsupported table of contents version.
    UnsupportedTocVersion,
    /// The data is shorter than the table of contents it declares.
    InsufficientData,
    /// A block declares a compression that does not exist.
    InvalidBlockCompression,
    /// The header declares field widths that do not fit in 64 bits.
    InvalidHeader,
}

} // verus!
