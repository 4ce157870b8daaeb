use vstd::prelude::*;

verus! {

/// Preference on whether an item is packed into a SOLID block.
#[derive(Debug, PartialEq, Eq, Clone, Copy, Hash, Structural)]
pub enum SolidPreference {
    /// Packed into a SOLID block when it is small enough to fit one.
    Default,
    /// Packed on its own, never into a SOLID block.
    NoSolid,
}

} // verus!
