use crate::headers::parser::path_order::bytes_equal;
use crate::utilities::compression::zstd::GetDecompressedSizeError;
use crate::utilities::compression::{NxCompressionError, NxDecompressionError};
use vstd::prelude::*;
use vstd::slice::slice_subrange;
use vstd::string::StringSliceAdditionalSpecFns;

verus! {

/// `needle` occurs as a run of consecutive bytes of `haystack`.
pub open spec fn occurs_in(haystack: Seq<u8>, needle: Seq<u8>) -> bool {
    exists|i: int| 0 <= i && i + needle.len() <= haystack.len() && #[trigger] haystack.subrange(i, i + needle.len()) == needle
}

/// Checks if a given path is present in the raw string pool data.
///
/// This performs a linear, case-sensitive search: the result is `true` when the bytes of
/// `path` occur consecutively in `raw_data`.
///
/// # Arguments
/// * `raw_data` - The raw byte data of the string pool.
/// * `path` - The path to search for in the string pool; it must not be empty.
pub fn contains(raw_data: &[u8], path: &str) -> (r: bool)
    requires
        path.spec_bytes().len() > 0,
    ensures
        r == occurs_in(raw_data@, path.spec_bytes()),
{
    let p = path.as_bytes();
    let n = p.len();
    if n > raw_data.len() {
        return false;
    }
    let mut i: usize = 0;
    while i <= raw_data.len() - n
        invariant
            n == p@.len(),
            n > 0,
            p@ == path.spec_bytes(),
            n <= raw_data@.len(),
            i <= raw_data@.len() - n + 1,
            forall|j: int| 0 <= j < i ==> #[trigger] raw_data@.subrange(j, j + n) != p@,
        decreases raw_data@.len() - i,
    {
        let window = slice_subrange(raw_data, i, i + n);
        if bytes_equal(window, p) {
            return true;
        }
        i = i + 1;
    }
    proof {
        assert forall|j: int| 0 <= j && j + n <= raw_data@.len() implies #[trigger] raw_data@.subrange(j, j + n as int) != p@ by {
            assert(j < i);
        }
    }
    false
}

/// Returns the number of strings in the pool, which is the number of offsets.
pub fn len(offsets: &[u32]) -> (r: usize)
    ensures
        r == offsets@.len(),
{
    offsets.len()
}

/// The layout of a string pool's content before compression.
#[derive(Debug, PartialEq, Eq, Clone, Copy, Structural)]
pub enum StringPoolFormat {
    /// # String Pool (V0) Format
    ///
    /// A flat buffer of UTF-8 file paths, each followed by a null terminator, using `/` as
    /// separator on all platforms. Example: `data/textures/cat.png\0data/textures/dog.png\0`.
    ///
    /// The paths are sorted lexicographically (to group similar paths together) and the
    /// buffer is compressed with ZStandard in a single pass, so that the frame declares the
    /// decompressed size.
    V0,

    /// # String Pool (Length Prefixed) Format
    ///
    /// A section with the length of each path (one byte per path), followed by the paths
    /// themselves without terminators. Example:
    /// `[21, 21, ...]data/textures/cat.pngdata/textures/dog.png...`
    ///
    /// Sorting and compression are as in [`StringPoolFormat::V0`].
    VPrefix,
}

/// An error obtained when trying to pack the string pool.
#[derive(Debug, PartialEq, Eq, Clone, Copy, Structural)]
pub enum StringPoolPackError {
    /// The compressed pool could exceed the maximum size.
    /// Packing the Nx archive would most likely fail, so we bail out early.
    PoolTooLarge,

    /// Failed to compress the pool.
    FailedToCompress(NxCompressionError),

    /// A file path was too long for the selected format.
    FilePathTooLong,
}

/// An error obtained when trying to unpack the string pool.
#[derive(Debug, PartialEq, Eq, Clone, Copy, Structural)]
pub enum StringPoolUnpackError {
    /// Failed to decompress the pool contents.
    FailedToDecompress(NxDecompressionError),

    /// Failed to determine decompressed size.
    FailedToGetDecompressedSize(GetDecompressedSizeError),

    /// The decompressed size exceeds the maximum size of a pool (given).
    ExceededMaxSize(u32),

    /// The decompressed pool does not hold the given number of UTF-8 paths.
    InvalidPoolData,
}

} // verus!
