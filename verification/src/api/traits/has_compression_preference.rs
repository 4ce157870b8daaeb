use crate::api::enums::compression_preference::CompressionPreference;
use vstd::prelude::*;

verus! {

/// An item which declares a preferred approach for being compressed.
pub trait HasCompressionPreference {
    /// The preferred compression of the item.
    spec fn spec_compression_preference(&self) -> CompressionPreference;

    /// Preferred algorithm to compress the item with.
    fn compression_preference(&self) -> (r: CompressionPreference)
        ensures
            r == self.spec_compression_preference(),
    ;
}

} // verus!
