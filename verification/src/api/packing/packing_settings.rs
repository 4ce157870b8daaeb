use crate::api::enums::compression_preference::CompressionPreference;
use crate::utilities::bit_count::{bits_needed_u32, lemma_bits_needed_bounds, lemma_bits_needed_le, spec_bits_needed};
use vstd::arithmetic::power2::{lemma2_to64, lemma_pow2_strictly_increases, pow2};
use vstd::prelude::*;

verus! {

/// The minimum block size that the user is allowed to specify.
pub const MIN_BLOCK_SIZE: u32 = 4095;

/// The maximum block size that the user is allowed to specify.
pub const MAX_BLOCK_SIZE: u32 = 67_108_863;

/// The minimum chunk size that the user is allowed to specify.
pub const MIN_CHUNK_SIZE: u32 = 32_768;

/// The maximum chunk size that the user is allowed to specify.
pub const MAX_CHUNK_SIZE: u32 = 1_073_741_824;

/// Controls how the packer works: block and chunk sizes, compression levels and
/// algorithms, deduplication and threads.
#[derive(Debug, Clone, Copy, PartialEq, Eq, Structural)]
pub struct PackingSettings {
    /// Maximum number of threads allowed (at least 1 once sanitized).
    pub max_num_threads: u32,
    /// Size of SOLID blocks: from [`MIN_BLOCK_SIZE`] to [`MAX_BLOCK_SIZE`], a power of 2
    /// minus 1, smaller than [`Self::chunk_size`] (once sanitized).
    pub block_size: u32,
    /// Size of large file chunks: from [`MIN_CHUNK_SIZE`] to [`MAX_CHUNK_SIZE`], a power
    /// of 2, greater than [`Self::block_size`] (once sanitized).
    pub chunk_size: u32,
    /// Whether to store hashes in the table of contents.
    pub store_hashes: bool,
    /// Compression level for SOLID data: -5 to 22 for ZStandard, 1 to 12 for LZ4.
    pub solid_compression_level: i32,
    /// Compression level for chunked data: -5 to 22 for ZStandard, 1 to 12 for LZ4.
    pub chunked_compression_level: i32,
    /// Compression algorithm of SOLID blocks.
    pub solid_block_algorithm: CompressionPreference,
    /// Compression algorithm of chunked files.
    pub chunked_file_algorithm: CompressionPreference,
    /// Whether chunks are deduplicated (a small overhead for each file).
    pub enable_chunked_deduplication: bool,
    /// Whether files in SOLID blocks are deduplicated (virtually free).
    pub enable_solid_deduplication: bool,
}

/// `x` clamped into `[lo, hi]`.
pub open spec fn spec_clamp(x: int, lo: int, hi: int) -> int {
    if x < lo {
        lo
    } else if x > hi {
        hi
    } else {
        x
    }
}

/// The smallest power of two that is at least `x`.
pub open spec fn spec_next_power_of_two(x: nat) -> nat {
    if x <= 1 {
        1
    } else {
        pow2(spec_bits_needed((x - 1) as nat))
    }
}

/// `x` is a power of two.
pub open spec fn is_power_of_two(x: nat) -> bool {
    exists|k: nat| pow2(k) == x
}

/// A value needs `k` bits when it lies in `[2^(k-1), 2^k)`.
proof fn lemma_bits_needed_exact(x: nat, k: nat)
    requires
        k >= 1,
        pow2((k - 1) as nat) <= x < pow2(k),
    ensures
        spec_bits_needed(x) == k,
{
    lemma_bits_needed_le(x, k);
    lemma_bits_needed_bounds(x);
    if spec_bits_needed(x) < k {
        if spec_bits_needed(x) < (k - 1) as nat {
            lemma_pow2_strictly_increases(spec_bits_needed(x), (k - 1) as nat);
        }
    }
}

/// The smallest power of two at least `x` is a power of two, at least `x`, and less
/// than `2x`.
pub proof fn lemma_next_power_of_two_is_least(x: nat)
    requires
        x >= 1,
    ensures
        is_power_of_two(spec_next_power_of_two(x)),
        x <= spec_next_power_of_two(x) < 2 * x,
{
    lemma2_to64();
    if x > 1 {
        let b = spec_bits_needed((x - 1) as nat);
        lemma_bits_needed_bounds((x - 1) as nat);
        vstd::arithmetic::power2::lemma_pow2_unfold(b);
        assert(pow2(b) == spec_next_power_of_two(x));
    } else {
        assert(pow2(0) == spec_next_power_of_two(x));
    }
}

/// The next power of two of a power of two is itself.
proof fn lemma_next_power_of_two_of_pow2(k: nat)
    ensures
        spec_next_power_of_two(pow2(k)) == pow2(k),
{
    lemma2_to64();
    if k >= 1 {
        vstd::arithmetic::power2::lemma_pow2_unfold(k);
        vstd::arithmetic::power2::lemma_pow2_pos((k - 1) as nat);
        lemma_bits_needed_exact((pow2(k) - 1) as nat, k);
    }
}

/// The next power of two after one less than a power of two `2^k` (`k >= 2`) is `2^k`.
proof fn lemma_next_power_of_two_of_pow2_minus_one(k: nat)
    requires
        k >= 2,
    ensures
        spec_next_power_of_two((pow2(k) - 1) as nat) == pow2(k),
{
    lemma2_to64();
    vstd::arithmetic::power2::lemma_pow2_unfold(k);
    vstd::arithmetic::power2::lemma_pow2_unfold((k - 1) as nat);
    vstd::arithmetic::power2::lemma_pow2_pos((k - 2) as nat);
    lemma_bits_needed_exact((pow2(k) - 2) as nat, k);
}

/// The smallest power of two at least `x`, for `x` from 1 to `2^31`.
pub fn next_power_of_two(x: u32) -> (r: u32)
    requires
        1 <= x <= 0x8000_0000,
    ensures
        r == spec_next_power_of_two(x as nat),
{
    if x <= 1 {
        return 1;
    }
    let b = bits_needed_u32(x - 1);
    proof {
        lemma2_to64();
        lemma_bits_needed_le((x - 1) as nat, 31);
        if b < 31 {
            lemma_pow2_strictly_increases(b as nat, 31);
        }
        vstd::bits::lemma_u32_shl_is_mul(1, b);
    }
    1u32 << b
}

/// The compression level kept for an algorithm: `level` clamped to -5..=22 for
/// ZStandard and to 1..=12 for LZ4; 1 when there is nothing to tune.
pub open spec fn spec_clamp_compression(level: i32, preference: CompressionPreference) -> i32 {
    match preference {
        CompressionPreference::Copy => 1,
        CompressionPreference::ZStandard => spec_clamp(level as int, -5, 22) as i32,
        CompressionPreference::Lz4 => spec_clamp(level as int, 1, 12) as i32,
        CompressionPreference::NoPreference => 1,
    }
}

/// The block size after sanitizing: clamped, then raised to a power of two minus 1.
pub open spec fn spec_sanitized_block_size(block_size: u32) -> u32 {
    (spec_next_power_of_two(spec_clamp(block_size as int, MIN_BLOCK_SIZE as int, MAX_BLOCK_SIZE as int) as nat) - 1) as u32
}

/// The chunk size after sanitizing: clamped, raised to a power of two, and raised past the
/// sanitized block size if it is not greater.
pub open spec fn spec_sanitized_chunk_size(chunk_size: u32, block_size: u32) -> u32 {
    let chunk = spec_next_power_of_two(spec_clamp(chunk_size as int, MIN_CHUNK_SIZE as int, MAX_CHUNK_SIZE as int) as nat);
    let block = spec_sanitized_block_size(block_size);
    if chunk <= block {
        (block + 1) as u32
    } else {
        chunk as u32
    }
}

/// The settings after [`PackingSettings::sanitize`].
pub open spec fn spec_sanitized(s: PackingSettings) -> PackingSettings {
    PackingSettings {
        max_num_threads: if s.max_num_threads == 0 { 1 } else { s.max_num_threads },
        block_size: spec_sanitized_block_size(s.block_size),
        chunk_size: spec_sanitized_chunk_size(s.chunk_size, s.block_size),
        solid_compression_level: spec_clamp_compression(s.solid_compression_level, s.solid_block_algorithm),
        chunked_compression_level: spec_clamp_compression(s.chunked_compression_level, s.chunked_file_algorithm),
        ..s
    }
}

/// Settings whose sizes, levels and thread count are in their ranges.
pub open spec fn settings_valid(s: PackingSettings) -> bool {
    &&& MIN_BLOCK_SIZE <= s.block_size <= MAX_BLOCK_SIZE
    &&& is_power_of_two((s.block_size + 1) as nat)
    &&& MIN_CHUNK_SIZE <= s.chunk_size <= MAX_CHUNK_SIZE
    &&& is_power_of_two(s.chunk_size as nat)
    &&& s.chunk_size > s.block_size
    &&& s.max_num_threads >= 1
    &&& s.solid_block_algorithm == CompressionPreference::ZStandard ==> -5 <= s.solid_compression_level <= 22
    &&& s.solid_block_algorithm == CompressionPreference::Lz4 ==> 1 <= s.solid_compression_level <= 12
    &&& s.chunked_file_algorithm == CompressionPreference::ZStandard ==> -5 <= s.chunked_compression_level <= 22
    &&& s.chunked_file_algorithm == CompressionPreference::Lz4 ==> 1 <= s.chunked_compression_level <= 12
    &&& s.solid_block_algorithm == CompressionPreference::Copy || s.solid_block_algorithm == CompressionPreference::NoPreference
        ==> s.solid_compression_level == 1
    &&& s.chunked_file_algorithm == CompressionPreference::Copy || s.chunked_file_algorithm == CompressionPreference::NoPreference
        ==> s.chunked_compression_level == 1
}

/// The sanitized block size is `2^k - 1` with `12 <= k <= 26`.
proof fn lemma_sanitized_block_size(block_size: u32)
    ensures
        ({
            let b = spec_sanitized_block_size(block_size);
            exists|k: nat| 12 <= k <= 26 && #[trigger] pow2(k) == b + 1
        }),
{
    lemma2_to64();
    let x = spec_clamp(block_size as int, MIN_BLOCK_SIZE as int, MAX_BLOCK_SIZE as int) as nat;
    let k = spec_bits_needed((x - 1) as nat);
    lemma_bits_needed_le((x - 1) as nat, 26);
    lemma_bits_needed_bounds((x - 1) as nat);
    if k < 12 {
        lemma_pow2_strictly_increases(k, 11);
    }
    if k < 26 {
        lemma_pow2_strictly_increases(k, 26);
    }
    assert(pow2(k) == spec_sanitized_block_size(block_size) + 1);
}

/// The sanitized chunk size is `2^k` with `15 <= k <= 30`, and greater than the
/// sanitized block size.
proof fn lemma_sanitized_chunk_size(chunk_size: u32, block_size: u32)
    ensures
        ({
            let c = spec_sanitized_chunk_size(chunk_size, block_size);
            &&& exists|k: nat| 15 <= k <= 30 && #[trigger] pow2(k) == c
            &&& c > spec_sanitized_block_size(block_size)
        }),
{
    lemma2_to64();
    lemma_sanitized_block_size(block_size);
    let x = spec_clamp(chunk_size as int, MIN_CHUNK_SIZE as int, MAX_CHUNK_SIZE as int) as nat;
    let k = spec_bits_needed((x - 1) as nat);
    lemma_bits_needed_le((x - 1) as nat, 30);
    lemma_bits_needed_bounds((x - 1) as nat);
    if k < 15 {
        lemma_pow2_strictly_increases(k, 14);
    }
    if k < 30 {
        lemma_pow2_strictly_increases(k, 30);
    }
    let b = spec_sanitized_block_size(block_size);
    let kb = choose|kb: nat| 12 <= kb <= 26 && #[trigger] pow2(kb) == b + 1;
    if pow2(k) <= b {
        // The chunk is raised to the block size plus one, a power of two of at least 2^15.
        if kb < 15 {
            lemma_pow2_strictly_increases(kb, 15);
        }
        assert(pow2(kb) == spec_sanitized_chunk_size(chunk_size, block_size));
    } else {
        assert(pow2(k) == spec_sanitized_chunk_size(chunk_size, block_size));
    }
}

/// Sanitized settings are valid: the block size is a power of two minus 1 within its
/// range, the chunk size a power of two within its range and greater than the block size,
/// at least one thread, and the levels within the ranges of their algorithms (1 for
/// algorithms without levels).
pub proof fn lemma_sanitized_settings_valid(s: PackingSettings)
    ensures
        settings_valid(spec_sanitized(s)),
{
    lemma2_to64();
    let t = spec_sanitized(s);
    lemma_sanitized_block_size(s.block_size);
    lemma_sanitized_chunk_size(s.chunk_size, s.block_size);
    let kb = choose|kb: nat| 12 <= kb <= 26 && #[trigger] pow2(kb) == t.block_size + 1;
    let kc = choose|kc: nat| 15 <= kc <= 30 && #[trigger] pow2(kc) == t.chunk_size;
    if kb < 26 {
        lemma_pow2_strictly_increases(kb, 26);
    }
    if kb > 12 {
        lemma_pow2_strictly_increases(12, kb);
    }
    if kc < 30 {
        lemma_pow2_strictly_increases(kc, 30);
    }
    if kc > 15 {
        lemma_pow2_strictly_increases(15, kc);
    }
    assert(is_power_of_two((t.block_size + 1) as nat));
    assert(is_power_of_two(t.chunk_size as nat));
}

/// Sanitizing leaves valid settings unchanged.
pub proof fn lemma_sanitize_keeps_valid(s: PackingSettings)
    requires
        settings_valid(s),
    ensures
        spec_sanitized(s) == s,
{
    lemma2_to64();
    let kb = choose|kb: nat| pow2(kb) == s.block_size + 1;
    let kc = choose|kc: nat| pow2(kc) == s.chunk_size as nat;
    if kb < 2 {
        if kb == 1 {
            vstd::arithmetic::power2::lemma_pow2_unfold(1);
        }
        assert(false);
    }
    lemma_next_power_of_two_of_pow2_minus_one(kb);
    lemma_next_power_of_two_of_pow2(kc);
    assert(spec_sanitized(s) =~= s);
}

/// Sanitizing twice gives what sanitizing once gives.
pub proof fn lemma_sanitize_idempotent(s: PackingSettings)
    ensures
        spec_sanitized(spec_sanitized(s)) == spec_sanitized(s),
{
    lemma_sanitized_settings_valid(s);
    lemma_sanitize_keeps_valid(spec_sanitized(s));
}

impl PackingSettings {
    /// The default settings, for a machine that allows `max_num_threads` threads: blocks
    /// of 1 MiB - 1, chunks of 1 MiB, hashes stored, ZStandard at level 16 for SOLID
    /// blocks and 9 for chunks, SOLID deduplication only.
    pub open spec fn spec_new(max_num_threads: u32) -> PackingSettings {
        PackingSettings {
            max_num_threads,
            block_size: 1_048_575,
            chunk_size: 1_048_576,
            store_hashes: true,
            solid_compression_level: 16,
            chunked_compression_level: 9,
            solid_block_algorithm: CompressionPreference::ZStandard,
            chunked_file_algorithm: CompressionPreference::ZStandard,
            enable_chunked_deduplication: false,
            enable_solid_deduplication: true,
        }
    }

    /// Creates settings with the default values ([`PackingSettings::spec_new`]), for a
    /// machine that allows `max_num_threads` threads (its number of cores).
    pub fn new(max_num_threads: u32) -> (r: PackingSettings)
        ensures
            r == PackingSettings::spec_new(max_num_threads),
    {
        PackingSettings {
            max_num_threads,
            block_size: 1_048_575,
            chunk_size: 1_048_576,
            solid_compression_level: 16,
            chunked_compression_level: 9,
            solid_block_algorithm: CompressionPreference::ZStandard,
            chunked_file_algorithm: CompressionPreference::ZStandard,
            enable_chunked_deduplication: false,
            enable_solid_deduplication: true,
            store_hashes: true,
        }
    }

    /// Sanitizes settings to acceptable values if they are out of range: see
    /// [`spec_sanitized`]; the result is valid ([`lemma_sanitized_settings_valid`]).
    pub fn sanitize(&mut self)
        ensures
            *final(self) == spec_sanitized(*old(self)),
    {
        let ghost s = *self;
        // The block size is a power of two minus one.
        let block = clamp_u32(self.block_size, MIN_BLOCK_SIZE, MAX_BLOCK_SIZE);
        let chunk = clamp_u32(self.chunk_size, MIN_CHUNK_SIZE, MAX_CHUNK_SIZE);
        proof {
            lemma_next_power_of_two_is_least(block as nat);
            lemma_sanitized_block_size(s.block_size);
        }
        let block_size = next_power_of_two(block) - 1;
        let mut chunk_size = next_power_of_two(chunk);
        if chunk_size <= block_size {
            chunk_size = block_size + 1;
        }
        self.block_size = block_size;
        self.chunk_size = chunk_size;
        self.solid_compression_level = self.clamp_compression(self.solid_compression_level, &self.solid_block_algorithm);
        self.chunked_compression_level = self.clamp_compression(self.chunked_compression_level, &self.chunked_file_algorithm);
        if self.max_num_threads == 0 {
            self.max_num_threads = 1;
        }
        assert(*self =~= spec_sanitized(s));
    }

    /// The compression level kept for the given algorithm; see [`spec_clamp_compression`].
    fn clamp_compression(&self, level: i32, preference: &CompressionPreference) -> (r: i32)
        ensures
            r == spec_clamp_compression(level, *preference),
    {
        match preference {
            CompressionPreference::Copy => 1,
            CompressionPreference::ZStandard => clamp_i32(level, -5, 22),
            CompressionPreference::Lz4 => clamp_i32(level, 1, 12),
            CompressionPreference::NoPreference => 1,
        }
    }
}

/// `x` clamped into `[lo, hi]`.
fn clamp_u32(x: u32, lo: u32, hi: u32) -> (r: u32)
    requires
        lo <= hi,
    ensures
        r == spec_clamp(x as int, lo as int, hi as int),
{
    if x < lo {
        lo
    } else if x > hi {
        hi
    } else {
        x
    }
}

/// `x` clamped into `[lo, hi]`.
fn clamp_i32(x: i32, lo: i32, hi: i32) -> (r: i32)
    requires
        lo <= hi,
    ensures
        r == spec_clamp(x as int, lo as int, hi as int),
{
    if x < lo {
        lo
    } else if x > hi {
        hi
    } else {
        x
    }
}

} // verus!
