use crate::api::traits::filedata::file_data::FileData;
use vstd::prelude::*;

verus! {

/// [`FileData`] backed by a byte slice.
pub struct SliceFileData<'a> {
    data: &'a [u8],
}

impl<'a> SliceFileData<'a> {
    /// The bytes this file data gives.
    pub closed spec fn spec_bytes(&self) -> Seq<u8> {
        self.data@
    }

    /// Creates the file data over the given bytes.
    pub fn new(data: &'a [u8]) -> (r: SliceFileData<'a>)
        ensures
            r.spec_bytes() == data@,
    {
        SliceFileData { data }
    }
}

impl<'a> FileData for SliceFileData<'a> {
    open spec fn spec_data(&self) -> Seq<u8> {
        self.spec_bytes()
    }

    fn data(&self) -> (r: &[u8]) {
        self.data
    }
}

} // verus!
