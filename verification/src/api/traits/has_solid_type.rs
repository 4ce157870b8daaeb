use crate::api::enums::solid_preference::SolidPreference;
use vstd::prelude::*;

verus! {

/// An item which states whether it would prefer to be SOLIDly packed or not.
pub trait HasSolidType {
    /// The SOLID preference of the item.
    spec fn spec_solid_type(&self) -> SolidPreference;

    /// Preference in terms of whether this item should be SOLID or not.
    fn solid_type(&self) -> (r: SolidPreference)
        ensures
            r == self.spec_solid_type(),
    ;
}

} // verus!
