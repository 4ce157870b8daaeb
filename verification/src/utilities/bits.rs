use vstd::arithmetic::power2::*;
use vstd::prelude::*;

verus! {

/// Mask with the lowest `w` bits set (all bits when `w >= 64`).
pub open spec fn mask64(w: u64) -> u64 {
    if w >= 64 {
        0xFFFF_FFFF_FFFF_FFFFu64
    } else {
        ((1u64 << w) - 1) as u64
    }
}

/// Value of the `w` bit wide field that starts at bit `lo` of `x`.
pub open spec fn get_bits64(x: u64, lo: u64, w: u64) -> u64 {
    (x >> lo) & mask64(w)
}

/// `x` with the `w` bit wide field at bit `lo` replaced by the low `w` bits of `v`.
pub open spec fn set_bits64(x: u64, lo: u64, w: u64, v: u64) -> u64 {
    (x & !(mask64(w) << lo)) | ((v & mask64(w)) << lo)
}

/// Reading a field back after writing it gives the written value, truncated to the field.
pub proof fn lemma_get_set_same64(x: u64, lo: u64, w: u64, v: u64)
    requires
        1 <= w,
        lo + w <= 64,
    ensures
        get_bits64(set_bits64(x, lo, w, v), lo, w) == v & mask64(w),
{
    if w == 64 {
        assert(lo == 0);
        assert(((x & !(0xFFFF_FFFF_FFFF_FFFFu64 << 0u64)) | ((v & 0xFFFF_FFFF_FFFF_FFFFu64) << 0u64)) >> 0u64 & 0xFFFF_FFFF_FFFF_FFFFu64 == v & 0xFFFF_FFFF_FFFF_FFFFu64) by (bit_vector);
    } else {
        assert(w < 64 && lo + w <= 64 ==> ((x & !((((1u64 << w) - 1) as u64) << lo)) | ((v & (((1u64 << w) - 1) as u64)) << lo)) >> lo & (((1u64 << w) - 1) as u64) == v & (((1u64 << w) - 1) as u64)) by (bit_vector);
    }
}


/// Reading a field back after writing it gives the written value modulo the field's range.
pub broadcast proof fn lemma_get_set_same64_mod(x: u64, lo: u64, w: u64, v: u64)
    requires
        1 <= w < 64,
        lo + w <= 64,
    ensures
        #[trigger] get_bits64(set_bits64(x, lo, w, v), lo, w) as int == v as int % (pow2(w as nat) as int),
{
    lemma_get_set_same64(x, lo, w, v);
    lemma_and_mask_is_mod64(v, w);
}

/// Masking with the lowest `w` bits is the remainder modulo `2^w`.
pub proof fn lemma_and_mask_is_mod64(v: u64, w: u64)
    requires
        w < 64,
    ensures
        (v & mask64(w)) as int == v as int % (pow2(w as nat) as int),
{
    lemma_mask_is_pow2_minus_one(w);
    vstd::bits::lemma_u64_pow2_no_overflow(w as nat);
    vstd::bits::lemma_u64_low_bits_mask_is_mod(v, w as nat);
}

/// Nothing is set in the zero word.
pub broadcast proof fn lemma_get_bits_zero64(lo: u64, w: u64)
    requires
        w < 64,
        lo < 64,
    ensures
        #[trigger] get_bits64(0, lo, w) == 0,
{
    assert(w < 64 && lo < 64 ==> (0u64 >> lo) & (((1u64 << w) - 1) as u64) == 0) by (bit_vector);
}

/// A word whose upper half is clear fits in 32 bits.
pub proof fn lemma_upper_half_clear64(x: u64)
    requires
        get_bits64(x, 32, 32) == 0,
    ensures
        x <= 0xFFFF_FFFF,
        (x as u32) as u64 == x,
{
    assert((x >> 32u64) & (((1u64 << 32u64) - 1) as u64) == 0 ==> x <= 0xFFFF_FFFF && (x as u32) as u64 == x) by (bit_vector);
}

/// Names the numeric value of a mask.
pub proof fn lemma_mask64_is(w: u64, m: u64)
    requires
        w < 64,
        m as int + 1 == pow2(w as nat),
    ensures
        mask64(w) == m,
{
    lemma_mask_is_pow2_minus_one(w);
}

/// The facts that let the solver read fields back out of a chain of field writes.
pub broadcast group group_bit_fields {
    lemma_get_set_same64_mod,
    lemma_get_set_other64,
    lemma_get_bits_zero64,
}

/// Writing a field leaves every field that does not overlap it unchanged.
pub broadcast proof fn lemma_get_set_other64(x: u64, lo: u64, w: u64, v: u64, lo2: u64, w2: u64)
    requires
        1 <= w < 64,
        1 <= w2 < 64,
        lo + w <= 64,
        lo2 + w2 <= 64,
        lo2 + w2 <= lo || lo + w <= lo2,
    ensures
        #[trigger] get_bits64(set_bits64(x, lo, w, v), lo2, w2) == get_bits64(x, lo2, w2),
{
    assert(1 <= w < 64 && 1 <= w2 < 64 && lo + w <= 64 && lo2 + w2 <= 64 && (lo2 + w2 <= lo || lo + w <= lo2)
        ==> ((x & !((((1u64 << w) - 1) as u64) << lo)) | ((v & (((1u64 << w) - 1) as u64)) << lo)) >> lo2 & (((1u64 << w2) - 1) as u64)
            == (x >> lo2) & (((1u64 << w2) - 1) as u64)) by (bit_vector);
}


/// A field never holds more than its width allows.
pub proof fn lemma_get_bits_bound64(x: u64, lo: u64, w: u64)
    requires
        1 <= w < 64,
        lo < 64,
    ensures
        get_bits64(x, lo, w) <= mask64(w),
        mask64(w) as int + 1 == pow2(w as nat),
{
    assert(1 <= w < 64 ==> (x >> lo) & (((1u64 << w) - 1) as u64) <= (((1u64 << w) - 1) as u64)) by (bit_vector);
    lemma_mask_is_pow2_minus_one(w);
}

/// The mask of `w` bits is `2^w - 1`.
pub proof fn lemma_mask_is_pow2_minus_one(w: u64)
    requires
        w < 64,
    ensures
        mask64(w) as int + 1 == pow2(w as nat),
    decreases w,
{
    if w == 0 {
        assert(((1u64 << 0u64) - 1) as u64 == 0u64) by (bit_vector);
        lemma2_to64();
    } else {
        lemma_mask_is_pow2_minus_one((w - 1) as u64);
        let p = (w - 1) as u64;
        assert(1 <= w < 64 && p == w - 1 ==> (((1u64 << w) - 1) as u64) as int == 2 * ((((1u64 << p) - 1) as u64) as int) + 1) by (bit_vector);
        lemma_pow2_unfold(w as nat);
    }
}

/// Reads the `w` bit wide field at bit `lo` of a 64 bit word.
pub fn get_field64(x: u64, lo: u64, w: u64) -> (r: u64)
    requires
        1 <= w < 64,
        lo + w <= 64,
    ensures
        r == get_bits64(x, lo, w),
        r <= mask64(w),
{
    proof {
        lemma_get_bits_bound64(x, lo, w);
    }
    assert(1 <= w < 64 ==> (1u64 << w) >= 1) by (bit_vector);
    (x >> lo) & ((1u64 << w) - 1)
}

/// Writes the low `w` bits of `v` into the field at bit `lo` of a 64 bit word.
pub fn set_field64(x: u64, lo: u64, w: u64, v: u64) -> (r: u64)
    requires
        1 <= w < 64,
        lo + w <= 64,
    ensures
        r == set_bits64(x, lo, w, v),
{
    assert(1 <= w < 64 ==> (1u64 << w) >= 1) by (bit_vector);
    let m = (1u64 << w) - 1;
    (x & !(m << lo)) | ((v & m) << lo)
}

/// Reads the `w` bit wide field at bit `lo` of a 32 bit word.
pub fn get_field32(x: u32, lo: u32, w: u32) -> (r: u32)
    requires
        1 <= w < 32,
        lo + w <= 32,
    ensures
        r as u64 == get_bits64(x as u64, lo as u64, w as u64),
{
    let ghost xl = x as u64;
    let ghost lol = lo as u64;
    let ghost wl = w as u64;
    assert(1 <= w < 32 ==> (1u32 << w) >= 1) by (bit_vector);
    let r = (x >> lo) & ((1u32 << w) - 1);
    assert(1 <= w < 32 && lo + w <= 32 && xl == x as u64 && lol == lo as u64 && wl == w as u64
        ==> ((x >> lo) & (((1u32 << w) - 1) as u32)) as u64 == (xl >> lol) & (((1u64 << wl) - 1) as u64)) by (bit_vector);
    r
}

/// Writes the low `w` bits of `v` into the field at bit `lo` of a 32 bit word.
pub fn set_field32(x: u32, lo: u32, w: u32, v: u32) -> (r: u32)
    requires
        1 <= w < 32,
        lo + w <= 32,
    ensures
        r as u64 == set_bits64(x as u64, lo as u64, w as u64, v as u64),
{
    let ghost xl = x as u64;
    let ghost vl = v as u64;
    let ghost lol = lo as u64;
    let ghost wl = w as u64;
    assert(1 <= w < 32 ==> (1u32 << w) >= 1) by (bit_vector);
    let m = (1u32 << w) - 1;
    let r = (x & !(m << lo)) | ((v & m) << lo);
    assert(1 <= w < 32 && lo + w <= 32 && xl == x as u64 && vl == v as u64 && lol == lo as u64 && wl == w as u64
        ==> ((x & !((((1u32 << w) - 1) as u32) << lo)) | ((v & (((1u32 << w) - 1) as u32)) << lo)) as u64
            == (xl & !((((1u64 << wl) - 1) as u64) << lol)) | ((vl & (((1u64 << wl) - 1) as u64)) << lol)) by (bit_vector);
    r
}

/// The `w` bit wide field at bit `lo` of `x`, for any width up to 64 (0 for an empty field).
pub open spec fn field_get64(x: u64, lo: u64, w: u64) -> u64 {
    if w == 0 {
        0
    } else {
        get_bits64(x, lo, w)
    }
}

/// `x` with the `w` bit wide field at bit `lo` replaced by the low `w` bits of `v`, for any
/// width up to 64 (`x` itself for an empty field).
pub open spec fn field_set64(x: u64, lo: u64, w: u64, v: u64) -> u64 {
    if w == 0 {
        x
    } else {
        set_bits64(x, lo, w, v)
    }
}

/// Whether `v` fits in `w` bits.
pub open spec fn fits_bits64(v: u64, w: u64) -> bool {
    w >= 64 || (v as int) < pow2(w as nat)
}

/// Reads a field of any width up to 64.
pub fn get_var_field64(x: u64, lo: u64, w: u64) -> (r: u64)
    requires
        lo + w <= 64,
    ensures
        r == field_get64(x, lo, w),
        fits_bits64(r, w),
{
    if w == 0 {
        proof {
            lemma2_to64();
        }
        0
    } else if w == 64 {
        assert(x >> 0u64 & 0xFFFF_FFFF_FFFF_FFFFu64 == x) by (bit_vector);
        x
    } else {
        let r = get_field64(x, lo, w);
        proof {
            lemma_get_bits_bound64(x, lo, w);
        }
        r
    }
}

/// Writes a field of any width up to 64.
pub fn set_var_field64(x: u64, lo: u64, w: u64, v: u64) -> (r: u64)
    requires
        lo + w <= 64,
    ensures
        r == field_set64(x, lo, w, v),
{
    if w == 0 {
        x
    } else if w == 64 {
        assert((x & !(0xFFFF_FFFF_FFFF_FFFFu64 << 0u64)) | ((v & 0xFFFF_FFFF_FFFF_FFFFu64) << 0u64) == v) by (bit_vector);
        v
    } else {
        set_field64(x, lo, w, v)
    }
}

/// Reading a field of any width back after writing a value that fits gives the value.
pub proof fn lemma_field_get_set_same64(x: u64, lo: u64, w: u64, v: u64)
    requires
        lo + w <= 64,
        fits_bits64(v, w),
    ensures
        field_get64(field_set64(x, lo, w, v), lo, w) == v,
{
    lemma2_to64();
    if w == 0 {
    } else if w == 64 {
        lemma_get_set_same64(x, lo, w, v);
        assert(v & 0xFFFF_FFFF_FFFF_FFFFu64 == v) by (bit_vector);
    } else {
        lemma_get_set_same64(x, lo, w, v);
        lemma_and_mask_is_mod64(v, w);
        vstd::arithmetic::div_mod::lemma_small_mod(v as nat, pow2(w as nat));
    }
}

/// Writing a field of any width leaves every field that does not overlap it unchanged.
pub proof fn lemma_field_get_set_other64(x: u64, lo: u64, w: u64, v: u64, lo2: u64, w2: u64)
    requires
        lo + w <= 64,
        lo2 + w2 <= 64,
        lo2 + w2 <= lo || lo + w <= lo2,
    ensures
        field_get64(field_set64(x, lo, w, v), lo2, w2) == field_get64(x, lo2, w2),
{
    if w != 0 && w2 != 0 {
        lemma_get_set_other64(x, lo, w, v, lo2, w2);
    }
}

/// A value needs no more bits than a field it fits in.
pub proof fn lemma_fits_bits64_needed(v: u64, w: u64)
    requires
        crate::utilities::bit_count::spec_bits_needed(v as nat) <= w,
    ensures
        fits_bits64(v, w),
{
    if w < 64 {
        crate::utilities::bit_count::lemma_bits_needed_bounds(v as nat);
        let b = crate::utilities::bit_count::spec_bits_needed(v as nat);
        if b < w {
            lemma_pow2_strictly_increases(b, w as nat);
        }
    }
}

/// A value that fits in at most 31 bits fits in a `u32`.
pub proof fn lemma_fits_u32(v: u64, w: u64)
    requires
        fits_bits64(v, w),
        w <= 31,
    ensures
        v <= u32::MAX,
{
    lemma2_to64();
    if w < 31 {
        lemma_pow2_strictly_increases(w as nat, 31);
    }
}

/// A field inside the low `n` bits reads the same from the word cut to those bits.
pub proof fn lemma_field_get_low64(x: u64, n: u64, lo: u64, w: u64)
    requires
        lo + w <= n,
        n < 64,
    ensures
        field_get64(get_bits64(x, 0, n), lo, w) == field_get64(x, lo, w),
{
    if w > 0 {
        assert(1 <= w && lo + w <= n && n < 64 ==>
            (((x >> 0u64) & (((1u64 << n) - 1) as u64)) >> lo) & (((1u64 << w) - 1) as u64) == (x >> lo) & (((1u64 << w) - 1) as u64)) by (bit_vector);
    }
}

/// The low `n` bits of a word are its remainder modulo `2^n`.
pub proof fn lemma_get_bits_low_mod64(x: u64, n: u64)
    requires
        n < 64,
    ensures
        get_bits64(x, 0, n) as int == x as int % (pow2(n as nat) as int),
{
    assert(x >> 0u64 == x) by (bit_vector);
    lemma_and_mask_is_mod64(x, n);
}

} // verus!
