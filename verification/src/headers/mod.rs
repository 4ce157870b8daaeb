/// Enumerations used by the headers.
pub mod enums;
/// Native (packed, serialized) header structures.
pub mod raw;
/// Parsers and serializers of the variable sized header sections.
pub mod parser;
/// Small value types stored in the headers.
pub mod types;
/// Managed (in memory) forms of the headers.
pub mod managed;
