use vstd::prelude::*;

verus! {

/// Represents the version of the Table of Contents (TOC) used in the archive files.
/// Range: 0-3
///
/// - `V0`: 20-byte `FileEntry`. Max 1 million files, 256 thousand blocks.
/// - `V1`: 24-byte `FileEntry`. For exceptionally large archives.
/// - `V2`: 12-byte `FileEntry` without hashes.
/// - `V3`: 16-byte `FileEntry` for small archives (255 files, 255 blocks).
#[derive(Clone, Copy, PartialEq, Eq, Hash, Debug, Structural)]
pub enum TableOfContentsVersion {
    /// Version 0.
    V0,
    /// Version 1.
    V1,
    /// Version 2.
    V2,
    /// Version 3.
    V3,
}

/// The integer that encodes a version.
pub open spec fn spec_version_to_u8(v: TableOfContentsVersion) -> u8 {
    match v {
        TableOfContentsVersion::V0 => 0,
        TableOfContentsVersion::V1 => 1,
        TableOfContentsVersion::V2 => 2,
        TableOfContentsVersion::V3 => 3,
    }
}

/// The version that an integer encodes, or the integer itself when it encodes none.
pub open spec fn spec_version_from_u8(x: u8) -> Result<TableOfContentsVersion, u8> {
    if x == 0 {
        Ok(TableOfContentsVersion::V0)
    } else if x == 1 {
        Ok(TableOfContentsVersion::V1)
    } else if x == 2 {
        Ok(TableOfContentsVersion::V2)
    } else if x == 3 {
        Ok(TableOfContentsVersion::V3)
    } else {
        Err(x)
    }
}

impl TableOfContentsVersion {
    /// The integer that encodes this version.
    pub fn to_u8(self) -> (r: u8)
        ensures
            r == spec_version_to_u8(self),
    {
        match self {
            TableOfContentsVersion::V0 => 0,
            TableOfContentsVersion::V1 => 1,
            TableOfContentsVersion::V2 => 2,
            TableOfContentsVersion::V3 => 3,
        }
    }

    /// Converts an integer into a version, giving the integer back when it encodes none.
    pub fn try_from_u8(x: u8) -> (r: Result<TableOfContentsVersion, u8>)
        ensures
            r == spec_version_from_u8(x),
    {
        if x == 0 {
            Ok(TableOfContentsVersion::V0)
        } else if x == 1 {
            Ok(TableOfContentsVersion::V1)
        } else if x == 2 {
            Ok(TableOfContentsVersion::V2)
        } else if x == 3 {
            Ok(TableOfContentsVersion::V3)
        } else {
            Err(x)
        }
    }
}

/// Encoding a version and decoding the result gives the version back.
pub proof fn lemma_version_round_trip(v: TableOfContentsVersion)
    ensures
        spec_version_from_u8(spec_version_to_u8(v)) == Ok::<TableOfContentsVersion, u8>(v),
{
}

} // verus!
