use nanokit::count_bits::BitsNeeded;
use vstd::arithmetic::power2::*;
use vstd::prelude::*;

verus! {

/// The minimum number of bits needed to store `x`: 0 for 0, else one more than for `x / 2`.
pub open spec fn spec_bits_needed(x: nat) -> nat
    decreases x,
{
    if x == 0 {
        0
    } else {
        1 + spec_bits_needed(x / 2)
    }
}

/// Calls `nanokit`'s `BitsNeeded::bits_needed_to_store` on a `u32`. Its source computes
/// `u32::BITS - x.leading_zeros()`, the number of bits needed to store `x` (0 for 0).
#[verifier::external_body]
pub fn bits_needed_u32(x: u32) -> (r: u32)
    ensures
        r as nat == spec_bits_needed(x as nat),
{
    x.bits_needed_to_store()
}

/// Calls `nanokit`'s `BitsNeeded::bits_needed_to_store` on a `u64`. Its source computes
/// `u64::BITS - x.leading_zeros()`, the number of bits needed to store `x` (0 for 0).
#[verifier::external_body]
pub fn bits_needed_u64(x: u64) -> (r: u32)
    ensures
        r as nat == spec_bits_needed(x as nat),
{
    x.bits_needed_to_store()
}

/// Calls `nanokit`'s `BitsNeeded::bits_needed_to_store` on a `usize`. Its source computes
/// `usize::BITS - x.leading_zeros()`, the number of bits needed to store `x` (0 for 0).
#[verifier::external_body]
pub fn bits_needed_usize(x: usize) -> (r: u32)
    ensures
        r as nat == spec_bits_needed(x as nat),
{
    x.bits_needed_to_store()
}

/// A value needs exactly `b` bits when `2^(b-1) <= x < 2^b` (and `b == 0` for zero).
pub proof fn lemma_bits_needed_bounds(x: nat)
    ensures
        x < pow2(spec_bits_needed(x)),
        x > 0 ==> pow2((spec_bits_needed(x) - 1) as nat) <= x,
    decreases x,
{
    lemma2_to64();
    if x > 0 {
        lemma_bits_needed_bounds(x / 2);
        lemma_pow2_unfold(spec_bits_needed(x));
        if x / 2 > 0 {
            lemma_pow2_unfold(spec_bits_needed(x / 2));
        }
    }
}

/// A value below `2^k` needs at most `k` bits.
pub proof fn lemma_bits_needed_le(x: nat, k: nat)
    requires
        x < pow2(k),
    ensures
        spec_bits_needed(x) <= k,
{
    lemma_bits_needed_bounds(x);
    if spec_bits_needed(x) > k {
        lemma_pow2_strictly_increases(k, (spec_bits_needed(x) - 1) as nat);
        if (spec_bits_needed(x) - 1) as nat == k {
        }
    }
}

/// A value that needs at most `k` bits is below `2^k`.
pub proof fn lemma_bits_needed_lt_pow2(x: nat, k: nat)
    requires
        spec_bits_needed(x) <= k,
    ensures
        x < pow2(k),
{
    lemma_bits_needed_bounds(x);
    if spec_bits_needed(x) < k {
        lemma_pow2_strictly_increases(spec_bits_needed(x), k);
    }
}

/// A smaller value needs no more bits.
pub proof fn lemma_bits_needed_mono(x: nat, y: nat)
    requires
        x <= y,
    ensures
        spec_bits_needed(x) <= spec_bits_needed(y),
{
    lemma_bits_needed_bounds(y);
    lemma_bits_needed_le(x, spec_bits_needed(y));
}

} // verus!
