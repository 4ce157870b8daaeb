/// Table of contents header for 'Preset 0' (and 'Preset 1').
pub mod preset0_header;
/// Table of contents header for 'Preset 2'.
pub mod preset2_header;
/// Table of contents header for 'Preset 3'.
pub mod preset3_header;
/// The packed offset, path index and block index of Presets 0, 1 and 2.
pub mod offset_index_path_tuple_p0_p1_p2;
/// File entry layout of 'Preset 0'.
pub mod preset0_fileentry;
/// File entry layout of 'Preset 1'.
pub mod preset1_fileentry;
/// File entry layout of 'Preset 2'.
pub mod preset2_fileentry;
/// File entry layout of 'Preset 3', without hashes.
pub mod preset3_fileentry_nohash;
/// File entry layout of 'Preset 3', with hashes.
pub mod preset3_fileentry;
