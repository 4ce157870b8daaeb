use crate::api::filedata::shared::array_file_data::SliceFileData;
use vstd::prelude::*;

verus! {

/// Provides file data from an in-memory byte slice.
pub struct FromSliceReferenceProvider<'a> {
    data: &'a [u8],
}

impl<'a> FromSliceReferenceProvider<'a> {
    /// The bytes the provider reads from.
    pub closed spec fn spec_bytes(&self) -> Seq<u8> {
        self.data@
    }

    /// Creates a provider over the given slice.
    pub fn new(data: &'a [u8]) -> (r: FromSliceReferenceProvider<'a>)
        ensures
            r.spec_bytes() == data@,
    {
        FromSliceReferenceProvider { data }
    }

    /// The `length` bytes at `start`, which must lie within the slice.
    pub fn get_file_data(&self, start: u64, length: u64) -> (r: SliceFileData<'a>)
        requires
            start + length <= self.spec_bytes().len(),
        ensures
            r.spec_bytes() == self.spec_bytes().subrange(start as int, start + length),
    {
        let _len = self.data.len();
        let first = start as usize;
        let end = first + length as usize;
        SliceFileData::new(vstd::slice::slice_subrange(self.data, first, end))
    }
}

} // verus!
