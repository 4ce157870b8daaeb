use vstd::prelude::*;

verus! {

/// Preferred option for compression.
///
/// In the table of contents, `Copy`, `ZStandard` and `Lz4` are stored as 0, 1 and 2.
#[derive(Debug, PartialEq, Eq, Clone, Copy, Structural)]
pub enum CompressionPreference {
    /// No preference is specified.
    NoPreference,
    /// Do not compress at all, copy data verbatim.
    Copy,
    /// Compress with ZStandard.
    ZStandard,
    /// Compress with LZ4.
    Lz4,
}

/// The number that stores a compression in the table of contents.
pub open spec fn spec_compression_code(c: CompressionPreference) -> u32 {
    match c {
        CompressionPreference::Copy => 0,
        CompressionPreference::ZStandard => 1,
        CompressionPreference::Lz4 => 2,
        CompressionPreference::NoPreference => 255,
    }
}

/// The compression that a stored number stands for.
pub open spec fn spec_compression_from_code(code: u32) -> Option<CompressionPreference> {
    if code == 0 {
        Some(CompressionPreference::Copy)
    } else if code == 1 {
        Some(CompressionPreference::ZStandard)
    } else if code == 2 {
        Some(CompressionPreference::Lz4)
    } else {
        None
    }
}

impl CompressionPreference {
    /// The number that stores this compression in the table of contents
    /// (255 for no preference).
    pub fn to_code(self) -> (r: u32)
        ensures
            r == spec_compression_code(self),
    {
        match self {
            CompressionPreference::NoPreference => 255,
            CompressionPreference::Copy => 0,
            CompressionPreference::ZStandard => 1,
            CompressionPreference::Lz4 => 2,
        }
    }

    /// The compression that a stored number stands for, if any.
    pub fn from_code(code: u32) -> (r: Option<CompressionPreference>)
        ensures
            r == spec_compression_from_code(code),
    {
        if code == 0 {
            Some(CompressionPreference::Copy)
        } else if code == 1 {
            Some(CompressionPreference::ZStandard)
        } else if code == 2 {
            Some(CompressionPreference::Lz4)
        } else {
            None
        }
    }
}

} // verus!
