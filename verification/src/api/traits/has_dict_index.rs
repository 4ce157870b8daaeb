use vstd::prelude::*;

verus! {

/// An item with a numbered dictionary index attached, for dictionary compression.
pub trait HasDictIndex {
    /// The index of the dictionary of this item.
    spec fn spec_dict_index(&self) -> u32;

    /// Index of the dictionary for dictionary compression, if dictionary
    /// compression is being used.
    fn dict_index(&self) -> (r: u32)
        ensures
            r == self.spec_dict_index(),
    ;
}

/// A plain dictionary index.
impl HasDictIndex for u32 {
    open spec fn spec_dict_index(&self) -> u32 {
        *self
    }

    fn dict_index(&self) -> (r: u32) {
        *self
    }
}

} // verus!
