use vstd::prelude::*;

verus! {

/// An item that can tell its file size.
pub trait HasFileSize {
    /// The file size of the item in bytes.
    spec fn spec_file_size(&self) -> u64;

    /// Returns the file size of the item in bytes.
    fn file_size(&self) -> (r: u64)
        ensures
            r == self.spec_file_size(),
    ;
}

/// A plain file size.
impl HasFileSize for u64 {
    open spec fn spec_file_size(&self) -> u64 {
        *self
    }

    fn file_size(&self) -> (r: u64) {
        *self
    }
}

} // verus!
