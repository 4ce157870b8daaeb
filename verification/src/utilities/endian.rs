use vstd::bytes::*;
use vstd::prelude::*;

verus! {

/// `x` with the order of its eight bytes reversed.
pub open spec fn byte_swap64(x: u64) -> u64 {
    spec_u64_from_le_bytes(spec_u64_to_le_bytes(x).reverse())
}

/// `x` with the order of its four bytes reversed.
pub open spec fn byte_swap32(x: u32) -> u32 {
    spec_u32_from_le_bytes(spec_u32_to_le_bytes(x).reverse())
}

/// Calls `u64::to_le`. Its documentation says that this is a no-op on little endian
/// targets and swaps the bytes on big endian ones; which of the two happens depends on
/// the machine, so the contract states only that the result is one of them.
#[verifier::external_body]
pub fn u64_to_le(x: u64) -> (r: u64)
    ensures
        r == x || r == byte_swap64(x),
{
    x.to_le()
}

/// Calls `u32::to_le`. Its documentation says that this is a no-op on little endian
/// targets and swaps the bytes on big endian ones; which of the two happens depends on
/// the machine, so the contract states only that the result is one of them.
#[verifier::external_body]
pub fn u32_to_le(x: u32) -> (r: u32)
    ensures
        r == x || r == byte_swap32(x),
{
    x.to_le()
}


/// Swapping the bytes of a 32 bit word twice gives the word back.
pub proof fn lemma_byte_swap32_involution(x: u32)
    ensures
        byte_swap32(byte_swap32(x)) == x,
{
    lemma_auto_spec_u32_to_from_le_bytes();
    let s = spec_u32_to_le_bytes(x);
    assert(s.reverse().len() == 4);
    assert(s.reverse().reverse() =~= s);
}

/// Swapping the bytes of a 64 bit word twice gives the word back.
pub proof fn lemma_byte_swap64_involution(x: u64)
    ensures
        byte_swap64(byte_swap64(x)) == x,
{
    lemma_auto_spec_u64_to_from_le_bytes();
    let s = spec_u64_to_le_bytes(x);
    assert(s.reverse().len() == 8);
    assert(s.reverse().reverse() =~= s);
}

} // verus!
