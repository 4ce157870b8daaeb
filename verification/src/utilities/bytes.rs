use vstd::prelude::*;

verus! {

/// The little endian bytes of a 32 bit value.
pub open spec fn le_bytes32(x: u32) -> Seq<u8> {
    seq![(x & 0xff) as u8, ((x >> 8) & 0xff) as u8, ((x >> 16) & 0xff) as u8, ((x >> 24) & 0xff) as u8]
}

/// The little endian bytes of a 64 bit value.
pub open spec fn le_bytes64(x: u64) -> Seq<u8> {
    seq![
        (x & 0xff) as u8,
        ((x >> 8) & 0xff) as u8,
        ((x >> 16) & 0xff) as u8,
        ((x >> 24) & 0xff) as u8,
        ((x >> 32) & 0xff) as u8,
        ((x >> 40) & 0xff) as u8,
        ((x >> 48) & 0xff) as u8,
        ((x >> 56) & 0xff) as u8,
    ]
}

/// The 32 bit value whose little endian bytes start at `pos` of `s`.
pub open spec fn read_u32_le(s: Seq<u8>, pos: int) -> u32 {
    (s[pos] as u32) | ((s[pos + 1] as u32) << 8) | ((s[pos + 2] as u32) << 16) | ((s[pos + 3] as u32) << 24)
}

/// The 64 bit value whose little endian bytes start at `pos` of `s`.
pub open spec fn read_u64_le(s: Seq<u8>, pos: int) -> u64 {
    (s[pos] as u64) | ((s[pos + 1] as u64) << 8) | ((s[pos + 2] as u64) << 16) | ((s[pos + 3] as u64) << 24)
        | ((s[pos + 4] as u64) << 32) | ((s[pos + 5] as u64) << 40) | ((s[pos + 6] as u64) << 48) | ((s[pos + 7] as u64) << 56)
}

/// The 16 bit value whose little endian bytes start at `pos` of `s`.
pub open spec fn read_u16_le(s: Seq<u8>, pos: int) -> u16 {
    (s[pos] as u16) | ((s[pos + 1] as u16) << 8)
}

/// The little endian bytes of a 32 bit value hold its low 16 bits, then its high 16 bits,
/// each as a little endian 16 bit value.
pub proof fn lemma_read_u16_halves(s: Seq<u8>, pos: int, x: u32)
    requires
        0 <= pos,
        pos + 4 <= s.len(),
        s.subrange(pos, pos + 4) == le_bytes32(x),
    ensures
        read_u16_le(s, pos) == (x & 0xffff) as u16,
        read_u16_le(s, pos + 2) == (x >> 16) as u16,
{
    assert(s[pos] == s.subrange(pos, pos + 4)[0]);
    assert(s[pos + 1] == s.subrange(pos, pos + 4)[1]);
    assert(s[pos + 2] == s.subrange(pos, pos + 4)[2]);
    assert(s[pos + 3] == s.subrange(pos, pos + 4)[3]);
    assert((((x & 0xff) as u8) as u16) | ((((x >> 8) & 0xff) as u8) as u16) << 8 == (x & 0xffff) as u16) by (bit_vector);
    assert((((x >> 16) & 0xff) as u8) as u16 | ((((x >> 24) & 0xff) as u8) as u16) << 8 == (x >> 16) as u16) by (bit_vector);
}

/// `n` zero bytes.
pub open spec fn zeros(n: nat) -> Seq<u8> {
    Seq::new(n, |i: int| 0u8)
}

/// Reading a value back from where its little endian bytes were placed gives the value.
pub proof fn lemma_read_le_bytes32(x: u32, pre: Seq<u8>, post: Seq<u8>)
    ensures
        read_u32_le(pre + le_bytes32(x) + post, pre.len() as int) == x,
{
    let s = pre + le_bytes32(x) + post;
    let p = pre.len() as int;
    assert(s[p] == (x & 0xff) as u8);
    assert(s[p + 1] == ((x >> 8) & 0xff) as u8);
    assert(s[p + 2] == ((x >> 16) & 0xff) as u8);
    assert(s[p + 3] == ((x >> 24) & 0xff) as u8);
    assert((((x & 0xff) as u8) as u32) | ((((x >> 8) & 0xff) as u8) as u32) << 8 | ((((x >> 16) & 0xff) as u8) as u32) << 16
        | ((((x >> 24) & 0xff) as u8) as u32) << 24 == x) by (bit_vector);
}

/// Reading a value back from where its little endian bytes were placed gives the value.
pub proof fn lemma_read_le_bytes64(x: u64, pre: Seq<u8>, post: Seq<u8>)
    ensures
        read_u64_le(pre + le_bytes64(x) + post, pre.len() as int) == x,
{
    let s = pre + le_bytes64(x) + post;
    let p = pre.len() as int;
    assert(s[p] == (x & 0xff) as u8);
    assert(s[p + 1] == ((x >> 8) & 0xff) as u8);
    assert(s[p + 2] == ((x >> 16) & 0xff) as u8);
    assert(s[p + 3] == ((x >> 24) & 0xff) as u8);
    assert(s[p + 4] == ((x >> 32) & 0xff) as u8);
    assert(s[p + 5] == ((x >> 40) & 0xff) as u8);
    assert(s[p + 6] == ((x >> 48) & 0xff) as u8);
    assert(s[p + 7] == ((x >> 56) & 0xff) as u8);
    assert((((x & 0xff) as u8) as u64) | ((((x >> 8) & 0xff) as u8) as u64) << 8 | ((((x >> 16) & 0xff) as u8) as u64) << 16
        | ((((x >> 24) & 0xff) as u8) as u64) << 24 | ((((x >> 32) & 0xff) as u8) as u64) << 32
        | ((((x >> 40) & 0xff) as u8) as u64) << 40 | ((((x >> 48) & 0xff) as u8) as u64) << 48
        | ((((x >> 56) & 0xff) as u8) as u64) << 56 == x) by (bit_vector);
}

/// Reading where the little endian bytes of `x` lie gives `x`.
pub proof fn lemma_read_u32_where(s: Seq<u8>, pos: int, x: u32)
    requires
        0 <= pos,
        pos + 4 <= s.len(),
        s.subrange(pos, pos + 4) == le_bytes32(x),
    ensures
        read_u32_le(s, pos) == x,
{
    lemma_read_le_bytes32(x, s.take(pos), s.skip(pos + 4));
    assert(s =~= s.take(pos) + le_bytes32(x) + s.skip(pos + 4));
}

/// Reading where the little endian bytes of `x` lie gives `x`.
pub proof fn lemma_read_u64_where(s: Seq<u8>, pos: int, x: u64)
    requires
        0 <= pos,
        pos + 8 <= s.len(),
        s.subrange(pos, pos + 8) == le_bytes64(x),
    ensures
        read_u64_le(s, pos) == x,
{
    lemma_read_le_bytes64(x, s.take(pos), s.skip(pos + 8));
    assert(s =~= s.take(pos) + le_bytes64(x) + s.skip(pos + 8));
}

/// Appends the little endian bytes of `x`.
pub fn push_u32_le(v: &mut Vec<u8>, x: u32)
    ensures
        final(v)@ == old(v)@ + le_bytes32(x),
{
    v.push((x & 0xff) as u8);
    v.push(((x >> 8) & 0xff) as u8);
    v.push(((x >> 16) & 0xff) as u8);
    v.push(((x >> 24) & 0xff) as u8);
    assert(v@ =~= old(v)@ + le_bytes32(x));
}

/// Appends the little endian bytes of `x`.
pub fn push_u64_le(v: &mut Vec<u8>, x: u64)
    ensures
        final(v)@ == old(v)@ + le_bytes64(x),
{
    v.push((x & 0xff) as u8);
    v.push(((x >> 8) & 0xff) as u8);
    v.push(((x >> 16) & 0xff) as u8);
    v.push(((x >> 24) & 0xff) as u8);
    v.push(((x >> 32) & 0xff) as u8);
    v.push(((x >> 40) & 0xff) as u8);
    v.push(((x >> 48) & 0xff) as u8);
    v.push(((x >> 56) & 0xff) as u8);
    assert(v@ =~= old(v)@ + le_bytes64(x));
}

/// Appends `n` zero bytes.
pub fn push_zeros(v: &mut Vec<u8>, n: usize)
    ensures
        final(v)@ == old(v)@ + zeros(n as nat),
{
    let mut i: usize = 0;
    while i < n
        invariant
            i <= n,
            v@ == old(v)@ + zeros(i as nat),
        decreases n - i,
    {
        v.push(0u8);
        assert(zeros((i + 1) as nat) =~= zeros(i as nat).push(0u8));
        i = i + 1;
    }
}

/// Reads the 32 bit little endian value at `pos`.
pub fn read_u32_at(s: &[u8], pos: usize) -> (r: u32)
    requires
        pos + 4 <= s@.len(),
    ensures
        r == read_u32_le(s@, pos as int),
{
    (s[pos] as u32) | ((s[pos + 1] as u32) << 8) | ((s[pos + 2] as u32) << 16) | ((s[pos + 3] as u32) << 24)
}

/// Reads the 64 bit little endian value at `pos`.
pub fn read_u64_at(s: &[u8], pos: usize) -> (r: u64)
    requires
        pos + 8 <= s@.len(),
    ensures
        r == read_u64_le(s@, pos as int),
{
    (s[pos] as u64) | ((s[pos + 1] as u64) << 8) | ((s[pos + 2] as u64) << 16) | ((s[pos + 3] as u64) << 24)
        | ((s[pos + 4] as u64) << 32) | ((s[pos + 5] as u64) << 40) | ((s[pos + 6] as u64) << 48) | ((s[pos + 7] as u64) << 56)
}

} // verus!
