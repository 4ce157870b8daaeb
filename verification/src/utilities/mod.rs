/// Bit field arithmetic on packed 32 and 64 bit words.
pub mod bits;
/// Byte order conversions.
pub mod endian;
/// Number of bits needed to store a value.
pub mod bit_count;
/// Compression through ZStandard.
pub mod compression;
/// Searching bytes.
pub mod search;
/// Little endian encoding of integers in byte buffers.
pub mod bytes;
