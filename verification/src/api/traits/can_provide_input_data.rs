use crate::api::filedata::input::input_data_source::InputDataSource;
use vstd::prelude::*;

verus! {

/// An item which can tell where the bytes of its file come from.
pub trait CanProvideInputData<'a> {
    /// Where the bytes of the item's file come from.
    spec fn spec_input_data(&self) -> InputDataSource<'a>;

    /// Where the bytes of the item's file come from.
    fn input_data_provider(&self) -> (r: &InputDataSource<'a>)
        ensures
            *r == self.spec_input_data(),
    ;
}

} // verus!
