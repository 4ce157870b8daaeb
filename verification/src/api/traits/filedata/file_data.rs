use vstd::prelude::*;

verus! {

/// Read access to the bytes of a file, from any source.
pub trait FileData {
    /// The bytes of the file.
    spec fn spec_data(&self) -> Seq<u8>;

    /// Returns a byte slice of the underlying file data.
    fn data(&self) -> (r: &[u8])
        ensures
            r@ == self.spec_data(),
    ;
}

} // verus!
