use crate::utilities::bits::{
    lemma_mask64_is,get_bits64, get_field32, lemma_get_bits_bound64, lemma_upper_half_clear64, mask64, set_bits64, set_field32};
use crate::utilities::endian::{byte_swap32, u32_to_le};
use vstd::arithmetic::power2::*;
use vstd::arithmetic::power2::lemma2_to64;
use vstd::prelude::*;

verus! {

/// The 'magic' number that identifies an archive ('NXUS').
pub const NX_MAGIC: u32 = 0x4E58_5553;

/// Size of a header page in bytes.
pub const HEADER_PAGE_SIZE: u32 = 4096;

/// Packed header data.
///
/// | Bits    | Field             |
/// |---------|-------------------|
/// | 31 - 25 | `version` (u7)    |
/// | 24 - 20 | `chunk_size` (u5) |
/// | 19 - 4  | `header_page_count` (u16) |
/// | 3 - 0   | `feature_flags` (u4) |
#[derive(Clone, Copy, PartialEq, Eq, Hash, Debug, Default)]
pub struct HeaderData(pub u32);

impl HeaderData {
    /// `u7` The archive version.
    pub fn version(&self) -> (r: u32)
        ensures
            r as u64 == get_bits64(self.0 as u64, 25, 7),
    {
        get_field32(self.0, 25, 7)
    }

    /// `u5` The chunk size in its encoded raw value.
    pub fn chunk_size(&self) -> (r: u32)
        ensures
            r as u64 == get_bits64(self.0 as u64, 20, 5),
    {
        get_field32(self.0, 20, 5)
    }

    /// `u16` The number of 4K pages used to store the entire header.
    pub fn header_page_count(&self) -> (r: u32)
        ensures
            r as u64 == get_bits64(self.0 as u64, 4, 16),
    {
        get_field32(self.0, 4, 16)
    }

    /// `u4` The 'feature flags' for this structure.
    pub fn feature_flags(&self) -> (r: u32)
        ensures
            r as u64 == get_bits64(self.0 as u64, 0, 4),
    {
        get_field32(self.0, 0, 4)
    }

    /// Converts the packed data to little endian.
    pub fn to_le(&self) -> (r: HeaderData)
        ensures
            r.0 == self.0 || r.0 == byte_swap32(self.0),
    {
        HeaderData(u32_to_le(self.0))
    }
}

/// Number of times a power of two has to be doubled from 1 to reach at least `v`:
/// `2^log2_ceil(v)` is the smallest power of two that is not below `v`.
pub open spec fn log2_ceil(v: nat) -> nat
    decreases v,
{
    if v <= 1 {
        0
    } else {
        1 + log2_ceil(((v + 1) / 2) as nat)
    }
}

/// `2^log2_ceil(v)` is the smallest power of two that is not below `v`.
pub proof fn lemma_log2_ceil(v: nat)
    ensures
        pow2(log2_ceil(v)) >= v,
        log2_ceil(v) > 0 ==> pow2((log2_ceil(v) - 1) as nat) < v,
    decreases v,
{
    if v <= 1 {
        lemma2_to64();
    } else {
        let h = ((v + 1) / 2) as nat;
        lemma_log2_ceil(h);
        lemma_pow2_unfold(log2_ceil(v));
        if log2_ceil(h) > 0 {
            lemma_pow2_unfold(log2_ceil(h));
        } else {
            lemma2_to64();
        }
    }
}

/// The encoded chunk size stored for a requested chunk size of `c` bytes:
/// the exponent of the smallest power of two multiple of 512 that holds `c`.
pub open spec fn spec_chunk_size_code(c: u32) -> nat {
    let v: nat = if c < 512 { 512 } else { c as nat };
    (log2_ceil(v) - 9) as nat
}

/// The number of 4K pages needed to hold `bytes` bytes, truncated to 16 bits.
pub open spec fn spec_page_count_code(bytes: u32) -> nat {
    (((bytes as nat) + 4095) / 4096) % 0x10000
}

/// The packed header data that [`NativeFileHeader::init`] produces before the byte order conversion.
pub open spec fn spec_file_header_word(chunk_size_bytes: u32, header_page_bytes: u32) -> u64 {
    set_bits64(
        set_bits64(0, 20, 5, spec_chunk_size_code(chunk_size_bytes) as u64),
        4,
        16,
        spec_page_count_code(header_page_bytes) as u64,
    )
}

/// The packed data of a header made by [`NativeFileHeader::init`] reads back what the
/// header was made with: version 0, no feature flags, the chunk size rounded up to the
/// smallest power of two of at least [`NativeFileHeader::BASE_CHUNK_SIZE`] bytes that
/// holds it, and the header size rounded up to whole 4K pages.
///
/// The header size reads back while the rounded size counts at most `0xFFFF` pages, the
/// most that its 16 bit field holds.
pub proof fn lemma_file_header_word_reads_back(chunk_size_bytes: u32, header_page_count_bytes: u32)
    requires
        chunk_size_bytes <= 0x8000_0000,
        header_page_count_bytes <= 0xFFFF_F000,
    ensures
        ({
            let w = spec_file_header_word(chunk_size_bytes, header_page_count_bytes);
            let v: nat = if chunk_size_bytes < 512 { 512 } else { chunk_size_bytes as nat };
            &&& (w as u32) as u64 == w
            &&& get_bits64(w, 25, 7) == 0
            &&& get_bits64(w, 0, 4) == 0
            &&& get_bits64(w, 20, 5) <= 22
            &&& pow2((get_bits64(w, 20, 5) + 9) as nat) == pow2(log2_ceil(v))
            &&& pow2(log2_ceil(v)) >= v
            &&& (log2_ceil(v) > 9 ==> pow2((log2_ceil(v) - 1) as nat) < v)
            &&& (header_page_count_bytes as nat + 4095) / 4096 <= 0xFFFF ==> get_bits64(w, 4, 16) * 4096
                == (header_page_count_bytes as nat + 4095) / 4096 * 4096
        }),
{
    broadcast use crate::utilities::bits::group_bit_fields;
    let v: nat = if chunk_size_bytes < 512 { 512 } else { chunk_size_bytes as nat };
    lemma_log2_ceil(v);
    lemma2_to64();
    let k = log2_ceil(v);
    if k < 9 {
        lemma_pow2_strictly_increases(k, 9);
    }
    if k > 31 {
        lemma_pow2_strictly_increases(31, (k - 1) as nat);
    }
    let code = spec_chunk_size_code(chunk_size_bytes) as u64;
    let pages = spec_page_count_code(header_page_count_bytes) as u64;
    assert(code <= 22);
    let w0 = set_bits64(0, 20, 5, code);
    let w = set_bits64(w0, 4, 16, pages);
    assert(get_bits64(w, 32, 32) == get_bits64(0, 32, 32));
    lemma_upper_half_clear64(w);
    assert(get_bits64(w, 25, 7) == 0);
    assert(get_bits64(w, 0, 4) == 0);
    assert(get_bits64(w, 20, 5) == code);
    assert(get_bits64(w, 4, 16) == pages);
}

/// Structure that represents the native serialized file header.
///
/// It is assumed that [NativeFileHeader] is always little endian.
#[derive(Clone, Copy, PartialEq, Eq, Hash, Debug, Default)]
pub struct NativeFileHeader {
    /// 'Magic' header to identify the file.
    pub magic: u32,
    /// Packed values at end of the header.
    pub header_data: HeaderData,
}

/// `log2_ceil` of a value of at most `2^31`, computed by halving.
fn log2_ceil_u32(v: u32) -> (r: u32)
    requires
        1 <= v <= 0x8000_0000,
    ensures
        r as nat == log2_ceil(v as nat),
        r <= 31,
{
    let mut x = v;
    let mut k: u32 = 0;
    proof {
        lemma2_to64();
    }
    while x > 1
        invariant
            1 <= x <= 0x8000_0000,
            log2_ceil(v as nat) == k + log2_ceil(x as nat),
            x as nat * pow2(k as nat) < 0x8000_0000 + pow2(k as nat),
            k <= 31,
        decreases x,
    {
        proof {
            lemma_pow2_unfold((k + 1) as nat);
            lemma2_to64();
            assert(x as nat * pow2(k as nat) >= 2 * pow2(k as nat)) by (nonlinear_arith)
                requires x >= 2;
            if k >= 31 {
                if k > 31 {
                    lemma_pow2_strictly_increases(31, k as nat);
                }
                assert(false);
            }
        }
        let ghost old_x = x;
        x = x / 2 + x % 2;
        k = k + 1;
        proof {
            assert(x as nat == ((old_x + 1) / 2) as nat);
            assert(x as nat * pow2(k as nat) < 0x8000_0000 + pow2(k as nat)) by (nonlinear_arith)
                requires
                    old_x as nat * pow2((k - 1) as nat) < 0x8000_0000 + pow2((k - 1) as nat),
                    pow2(k as nat) == 2 * pow2((k - 1) as nat),
                    2 * x <= old_x + 1;
        }
    }
    k
}

impl NativeFileHeader {
    /// Size of header in bytes.
    pub const SIZE_BYTES: usize = 8;

    /// The current version of the Nexus Archive Format.
    pub const CURRENT_ARCHIVE_VERSION: u8 = 0;

    /// Minimum size of chunk blocks in the Nx archive.
    pub const BASE_CHUNK_SIZE: u32 = 512;

    /// The 'magic' number stored in the header.
    pub fn magic(&self) -> (r: u32)
        ensures
            r == self.magic,
    {
        self.magic
    }

    /// The packed values at the end of the header.
    pub fn header_data(&self) -> (r: HeaderData)
        ensures
            r == self.header_data,
    {
        self.header_data
    }

    /// Returns true if the 'Magic' in the header equals the given expected magic.
    pub fn magic_matches(&self, expected_magic: u32) -> (r: bool)
        ensures
            r == (self.magic == expected_magic),
    {
        self.magic == expected_magic
    }

    /// Returns true if the 'Magic' in the header is valid, else false.
    ///
    /// The header holds its values as numbers, as [`Self::init`] makes them; the expected
    /// magic is [`NX_MAGIC`] (`NXUS`). [`Self::to_le`] gives the form stored in an archive.
    pub fn is_valid_magic_header(&self) -> (r: bool)
        ensures
            r == (self.magic == NX_MAGIC),
    {
        self.magic_matches(NX_MAGIC)
    }

    /// Gets the total amount of bytes required to fetch this header and the table of contents.
    pub fn header_page_bytes(&self) -> (r: u32)
        ensures
            r as int == get_bits64(self.header_data.0 as u64, 4, 16) * 4096,
    {
        let count = self.header_data.header_page_count();
        proof {
            lemma_get_bits_bound64(self.header_data.0 as u64, 4, 16);
            lemma2_to64();
            lemma_mask64_is(16, 0xFFFF);
        }
        count * HEADER_PAGE_SIZE
    }

    /// Gets the chunk size used to split large files by.
    ///
    /// The shift drops bits that leave the 32 bit word, as Rust's `<<` does.
    pub fn chunk_size_bytes(&self) -> (r: u32)
        ensures
            get_bits64(self.header_data.0 as u64, 20, 5) <= 22 ==> r as nat == pow2(
                (get_bits64(self.header_data.0 as u64, 20, 5) + 9) as nat,
            ),
    {
        let code = self.header_data.chunk_size();
        proof {
            lemma_get_bits_bound64(self.header_data.0 as u64, 20, 5);
            lemma2_to64();
            lemma_mask64_is(5, 31);
        }
        let r = Self::BASE_CHUNK_SIZE << code;
        proof {
            if code <= 22 {
                lemma2_to64();
                lemma_pow2_adds(9, code as nat);
                if code < 22 {
                    lemma_pow2_strictly_increases(code as nat, 22);
                }
                vstd::bits::lemma_u32_shl_is_mul(512, code);
            }
        }
        r
    }

    /// Initializes the header with given data.
    ///
    /// The chunk size is rounded up to a power of two of at least [`Self::BASE_CHUNK_SIZE`],
    /// and the header size is rounded up to whole 4K pages.
    /// The returned header holds the values themselves; [`Self::to_le`] gives the form
    /// stored in an archive (the same on a little endian machine). A fresh header has a
    /// valid magic, version 0 and no feature flags, and reads back the rounded chunk size
    /// and (while they fit in the 16 bit page count) the rounded header bytes.
    ///
    /// # Arguments
    ///
    /// * `chunk_size_bytes` - Size of single chunk in archive.
    /// * `header_page_count_bytes` - Number of bytes used to store the entire header
    ///   (incl. compressed TOC and stringpool).
    pub fn init(chunk_size_bytes: u32, header_page_count_bytes: u32) -> (r: NativeFileHeader)
        requires
            chunk_size_bytes <= 0x8000_0000,
            header_page_count_bytes <= 0xFFFF_F000,
        ensures
            r.magic == NX_MAGIC,
            r.header_data.0 as u64 == spec_file_header_word(chunk_size_bytes, header_page_count_bytes),
            get_bits64(r.header_data.0 as u64, 25, 7) == Self::CURRENT_ARCHIVE_VERSION,
            get_bits64(r.header_data.0 as u64, 0, 4) == 0,
            get_bits64(r.header_data.0 as u64, 20, 5) <= 22,
            pow2((get_bits64(r.header_data.0 as u64, 20, 5) + 9) as nat) == pow2(
                log2_ceil(if chunk_size_bytes < 512 { 512 } else { chunk_size_bytes as nat }),
            ),
            (header_page_count_bytes as nat + 4095) / 4096 <= 0xFFFF ==> get_bits64(r.header_data.0 as u64, 4, 16) * 4096
                == (header_page_count_bytes as nat + 4095) / 4096 * 4096,
    {
        let v = if chunk_size_bytes < Self::BASE_CHUNK_SIZE {
            Self::BASE_CHUNK_SIZE
        } else {
            chunk_size_bytes
        };
        let k = log2_ceil_u32(v);
        proof {
            lemma_log2_ceil(v as nat);
            lemma2_to64();
            if k < 9 {
                lemma_pow2_strictly_increases(k as nat, 9);
            }
        }
        let code = k - 9;
        let pages = (header_page_count_bytes / HEADER_PAGE_SIZE) + if header_page_count_bytes
            % HEADER_PAGE_SIZE == 0 {
            0
        } else {
            1
        };
        assert(pages as nat == ((header_page_count_bytes as nat) + 4095) / 4096);
        let mut word: u32 = 0;
        word = set_field32(word, 25, 7, Self::CURRENT_ARCHIVE_VERSION as u32);
        word = set_field32(word, 20, 5, code);
        word = set_field32(word, 4, 16, pages);
        proof {
            let w0 = set_bits64(0, 25, 7, 0);
            assert(set_bits64(0, 25, 7, 0) == 0u64) by (bit_vector);
            let p = pages as u64;
            assert(p & 0xFFFF == p % 0x10000) by (bit_vector);
            lemma2_to64();
            lemma_mask64_is(16, 0xFFFF);
            let q = spec_page_count_code(header_page_count_bytes) as u64;
            assert(q == p % 0x10000);
            assert(p & 0xFFFF == q & 0xFFFF) by (bit_vector)
                requires q == p % 0x10000;
        }
        proof {
            lemma_file_header_word_reads_back(chunk_size_bytes, header_page_count_bytes);
        }
        NativeFileHeader { magic: NX_MAGIC, header_data: HeaderData(word) }
    }

    /// Converts the header to little endian.
    pub fn to_le(&self) -> (r: NativeFileHeader)
        ensures
            r.magic == self.magic || r.magic == byte_swap32(self.magic),
            r.header_data.0 == self.header_data.0 || r.header_data.0 == byte_swap32(
                self.header_data.0,
            ),
    {
        NativeFileHeader { magic: u32_to_le(self.magic), header_data: self.header_data.to_le() }
    }
}

} // verus!
