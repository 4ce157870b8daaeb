use vstd::prelude::*;

verus! {

/// The size of a compressed block.
#[derive(Debug, PartialEq, Eq, Clone, Copy, Structural)]
pub struct BlockSize {
    /// Compressed size of the block.
    pub compressed_size: u32,
}

impl BlockSize {
    /// Creates the block size.
    pub fn new(compressed_size: u32) -> (r: BlockSize)
        ensures
            r.compressed_size == compressed_size,
    {
        BlockSize { compressed_size }
    }
}

} // verus!
