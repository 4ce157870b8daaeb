/// Table of contents header for Version 2.
pub mod native_toc_header_v2;
/// Table of contents header for Version 3.
pub mod native_toc_header_v3;
/// Legacy (V0 and V1) layouts.
pub mod v1;
/// V2 layouts: the flexible format and the presets.
pub mod v2;
