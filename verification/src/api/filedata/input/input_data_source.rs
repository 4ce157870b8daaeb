use vstd::prelude::*;

verus! {

/// Where the bytes of a file to pack come from.
pub enum InputDataSource<'a> {
    /// Bytes borrowed from the caller.
    Slice(&'a [u8]),
    /// Bytes handed over to the packer.
    Boxed(Box<[u8]>),
    /// A file on disk, read at its path when packing.
    FilePath(String),
    /// A seekable stream kept by the caller, by its number; reading starts at the
    /// stream's position.
    Stream(usize),
}

} // verus!
