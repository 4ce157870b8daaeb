/// ZStandard frames: compression, decompression and the sizes they declare.
pub mod zstd;

use vstd::prelude::*;

verus! {

/// The compressor refused to compress the data.
#[derive(Debug, PartialEq, Eq, Clone, Copy, Structural)]
pub enum NxCompressionError {
    /// ZStandard reported an error.
    ZStandard,
}

/// The decompressor refused to decompress the data.
#[derive(Debug, PartialEq, Eq, Clone, Copy, Structural)]
pub enum NxDecompressionError {
    /// ZStandard reported an error, such as data that is no valid frame or that
    /// decompresses to more bytes than were allowed.
    ZStandard,
}

} // verus!
