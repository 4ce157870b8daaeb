use super::{NxCompressionError, NxDecompressionError};
use vstd::prelude::*;

verus! {

/// What compressing `src` into one ZStandard frame at compression level `level` gives:
/// the frame, or `None` when the compressor reports an error.
pub uninterp spec fn zstd_compressed(level: i32, src: Seq<u8>) -> Option<Seq<u8>>;

/// What decompressing the ZStandard frames `src` into a buffer of `capacity` bytes gives:
/// the decompressed bytes, or `None` when the decompressor reports an error (the data is
/// not a sequence of complete frames, or its content does not fit in `capacity` bytes).
pub uninterp spec fn zstd_decompressed(src: Seq<u8>, capacity: usize) -> Option<Seq<u8>>;

/// What the header of the ZStandard frame at the start of `src` declares of its content size:
/// `None` when no frame header can be read there, `Some(None)` when the header declares no size,
/// and `Some(Some(n))` when it declares `n` bytes.
pub uninterp spec fn zstd_frame_content_size(src: Seq<u8>) -> Option<Option<u64>>;

/// The largest input that ZStandard accepts (`ZSTD_MAX_INPUT_SIZE`).
pub open spec fn spec_zstd_max_input_size() -> int {
    if usize::BITS == 64 {
        0xFF00_FF00_FF00_FF00
    } else {
        0xFF00_FF00
    }
}

/// The largest size that single pass compression of `n` bytes can produce (`ZSTD_COMPRESSBOUND`).
pub open spec fn spec_compress_bound(n: int) -> int {
    n + n / 256 + if n < 128 * 1024 {
        (128 * 1024 - n) / 2048
    } else {
        0
    }
}

/// `c` is one ZStandard frame of `data`: it declares the size of `data`, is no longer than
/// the compress bound of `data` and not empty, and decompressing it into a buffer that can
/// hold `data` gives `data`.
pub open spec fn spec_frame_of(c: Seq<u8>, data: Seq<u8>) -> bool {
    &&& zstd_frame_content_size(c) == Some(Some(data.len() as u64))
    &&& c.len() <= spec_compress_bound(data.len() as int)
    &&& c.len() > 0
    &&& forall|cap: usize| data.len() <= cap ==> #[trigger] zstd_decompressed(c, cap) == Some(data)
}

/// Why the decompressed size of a frame could not be told.
#[derive(Debug, PartialEq, Eq, Clone, Copy, Structural)]
pub enum GetDecompressedSizeError {
    /// The data does not start with a readable frame header.
    InvalidFrameHeader,
    /// The frame header does not declare the size of its content.
    SizeNotDeclared,
    /// The declared size does not fit in `usize`.
    SizeTooLarge,
}

/// Calls `zstd_safe::compress_bound` (`ZSTD_compressBound`), which the ZStandard header
/// defines as the formula of [`spec_compress_bound`] for every input below
/// `ZSTD_MAX_INPUT_SIZE`.
#[verifier::external_body]
pub(crate) fn compress_bound(src_size: usize) -> (r: usize)
    requires
        src_size < spec_zstd_max_input_size(),
    ensures
        r == spec_compress_bound(src_size as int),
{
    ::zstd::zstd_safe::compress_bound(src_size)
}

/// Calls `zstd::bulk::compress`, which compresses `source` into one frame with a single
/// pass of `ZSTD_compress2`; its result is named [`zstd_compressed`]. Creating the context
/// panics (on a failed allocation) rather than fails, so an error comes only from setting
/// the level or from the compression itself, which depend on the level and the input alone. The ZStandard header documents that such a
/// frame declares its content size, that it is no longer than the compress bound of the
/// input, and that decompressing it into a buffer that can hold the input gives the input
/// back; a frame is never empty (it starts with a magic number).
#[verifier::external_body]
pub(crate) fn compress(level: i32, source: &[u8]) -> (r: Result<Vec<u8>, NxCompressionError>)
    requires
        source@.len() < spec_zstd_max_input_size(),
    ensures
        (r is Ok) == (zstd_compressed(level, source@) is Some),
        r matches Ok(c) ==> {
            &&& zstd_compressed(level, source@) == Some(c@)
            &&& spec_frame_of(c@, source@)
        },
{
    match ::zstd::bulk::compress(source, level) {
        Ok(v) => Ok(v),
        Err(_) => Err(NxCompressionError::ZStandard),
    }
}

/// Calls `zstd::bulk::decompress`, which decompresses a sequence of frames into a buffer
/// of at most `capacity` bytes; its result is named [`zstd_decompressed`]. Creating the
/// context panics (on a failed allocation) rather than fails, so an error comes only from
/// the decompression itself, which depends on the data and the capacity alone.
#[verifier::external_body]
pub(crate) fn decompress(source: &[u8], capacity: usize) -> (r: Result<Vec<u8>, NxDecompressionError>)
    ensures
        (r is Ok) == (zstd_decompressed(source@, capacity) is Some),
        r matches Ok(d) ==> zstd_decompressed(source@, capacity) == Some(d@) && d@.len() <= capacity,
{
    match ::zstd::bulk::decompress(source, capacity) {
        Ok(v) => Ok(v),
        Err(_) => Err(NxDecompressionError::ZStandard),
    }
}

/// Calls `zstd_safe::get_frame_content_size` (`ZSTD_getFrameContentSize`), which reads the
/// header of the frame that starts `source`; its result is named [`zstd_frame_content_size`].
#[verifier::external_body]
pub(crate) fn frame_content_size(source: &[u8]) -> (r: Option<Option<u64>>)
    ensures
        r == zstd_frame_content_size(source@),
{
    match ::zstd::zstd_safe::get_frame_content_size(source) {
        Ok(size) => Some(size),
        Err(_) => None,
    }
}

/// The decompressed size that the frame at the start of `source` declares.
pub open spec fn spec_decompressed_size(source: Seq<u8>) -> Result<usize, GetDecompressedSizeError> {
    match zstd_frame_content_size(source) {
        None => Err(GetDecompressedSizeError::InvalidFrameHeader),
        Some(None) => Err(GetDecompressedSizeError::SizeNotDeclared),
        Some(Some(n)) => if n <= usize::MAX {
            Ok(n as usize)
        } else {
            Err(GetDecompressedSizeError::SizeTooLarge)
        },
    }
}

/// Gets the decompressed size that the header of the frame at the start of `source` declares.
///
/// # Errors
/// * `InvalidFrameHeader` when no frame header can be read.
/// * `SizeNotDeclared` when the frame does not declare its size (as in streamed frames).
/// * `SizeTooLarge` when the size does not fit in `usize`.
pub fn get_decompressed_size(source: &[u8]) -> (r: Result<usize, GetDecompressedSizeError>)
    ensures
        r == spec_decompressed_size(source@),
{
    match frame_content_size(source) {
        None => Err(GetDecompressedSizeError::InvalidFrameHeader),
        Some(None) => Err(GetDecompressedSizeError::SizeNotDeclared),
        Some(Some(n)) => {
            if n <= usize::MAX as u64 {
                Ok(n as usize)
            } else {
                Err(GetDecompressedSizeError::SizeTooLarge)
            }
        },
    }
}

/// The largest size that compressing `source_len` bytes in one pass can produce; buffers of
/// this size always hold the compressed frame.
pub fn max_alloc_for_compress_size(source_len: usize) -> (r: usize)
    requires
        source_len < spec_zstd_max_input_size(),
    ensures
        r == spec_compress_bound(source_len as int),
{
    compress_bound(source_len)
}

} // verus!
