//! Big-endian integer encodings shared by the wire formats.

use vstd::prelude::*;

verus! {

/// The four big-endian bytes of `x`.
pub open spec fn be32(x: u32) -> Seq<u8> {
    seq![((x >> 24u32) & 0xff) as u8, ((x >> 16u32) & 0xff) as u8, ((x >> 8u32) & 0xff) as u8, (x & 0xff) as u8]
}

/// The eight big-endian bytes of `x`.
pub open spec fn be64(x: u64) -> Seq<u8> {
    be32((x >> 32u64) as u32) + be32((x & 0xffff_ffff) as u32)
}

/// The number whose big-endian bytes are `s[i..i + 4]`.
pub open spec fn read_be32(s: Seq<u8>, i: int) -> u32 {
    ((s[i] as u32) << 24u32) | ((s[i + 1] as u32) << 16u32) | ((s[i + 2] as u32) << 8u32) | (s[i + 3] as u32)
}

/// The number whose big-endian bytes are `s[i..i + 8]`.
pub open spec fn read_be64(s: Seq<u8>, i: int) -> u64 {
    ((read_be32(s, i) as u64) << 32u64) | (read_be32(s, i + 4) as u64)
}

/// Reading back the bytes of `x` gives `x`.
pub proof fn lemma_be32_roundtrip(x: u32)
    ensures
        read_be32(be32(x), 0) == x,
{
    let c0 = (x >> 24u32) & 0xff;
    let c1 = (x >> 16u32) & 0xff;
    let c2 = (x >> 8u32) & 0xff;
    let c3 = x & 0xff;
    assert(c0 < 256 && c1 < 256 && c2 < 256 && c3 < 256) by (bit_vector)
        requires
            c0 == (x >> 24u32) & 0xff,
            c1 == (x >> 16u32) & 0xff,
            c2 == (x >> 8u32) & 0xff,
            c3 == x & 0xff,
    ;
    assert((c0 << 24u32) | (c1 << 16u32) | (c2 << 8u32) | c3 == x) by (bit_vector)
        requires
            c0 == (x >> 24u32) & 0xff,
            c1 == (x >> 16u32) & 0xff,
            c2 == (x >> 8u32) & 0xff,
            c3 == x & 0xff,
    ;
}

/// Reading back the bytes of `x` gives `x`.
pub proof fn lemma_be64_roundtrip(x: u64)
    ensures
        read_be64(be64(x), 0) == x,
{
    let hi = (x >> 32u64) as u32;
    let lo = (x & 0xffff_ffff) as u32;
    assert(x >> 32u64 <= 0xffff_ffff) by (bit_vector);
    assert(x & 0xffff_ffff <= 0xffff_ffff) by (bit_vector);
    lemma_be32_roundtrip(hi);
    lemma_be32_roundtrip(lo);
    let s = be64(x);
    assert(s.subrange(0, 4) =~= be32(hi));
    assert(s.subrange(4, 8) =~= be32(lo));
    assert(read_be32(s, 0) == read_be32(be32(hi), 0));
    assert(read_be32(s, 4) == read_be32(be32(lo), 0));
    let h = hi as u64;
    let l = lo as u64;
    assert((h << 32u64) | l == x) by (bit_vector)
        requires
            h == x >> 32u64,
            l == x & 0xffff_ffff,
    ;
}

/// Appends the big-endian bytes of `x`.
pub fn push_be32(v: &mut Vec<u8>, x: u32)
    ensures
        final(v)@ == old(v)@ + be32(x),
{
    v.push(((x >> 24u32) & 0xff) as u8);
    v.push(((x >> 16u32) & 0xff) as u8);
    v.push(((x >> 8u32) & 0xff) as u8);
    v.push((x & 0xff) as u8);
    assert(final(v)@ =~= old(v)@ + be32(x));
}

/// Appends the big-endian bytes of `x`.
pub fn push_be64(v: &mut Vec<u8>, x: u64)
    ensures
        final(v)@ == old(v)@ + be64(x),
{
    let ghost start = v@;
    push_be32(v, (x >> 32u64) as u32);
    push_be32(v, (x & 0xffff_ffff) as u32);
    assert(v@ =~= start + be64(x));
}

/// The number whose big-endian bytes are `s[i..i + 4]`.
pub fn get_be32(s: &[u8], i: usize) -> (r: u32)
    requires
        i + 4 <= s@.len(),
    ensures
        r == read_be32(s@, i as int),
{
    ((s[i] as u32) << 24u32) | ((s[i + 1] as u32) << 16u32) | ((s[i + 2] as u32) << 8u32) | (s[i + 3] as u32)
}

/// The number whose big-endian bytes are `s[i..i + 8]`.
pub fn get_be64(s: &[u8], i: usize) -> (r: u64)
    requires
        i + 8 <= s@.len(),
    ensures
        r == read_be64(s@, i as int),
{
    let n = s.len();
    assert(i + 4 < n);
    ((get_be32(s, i) as u64) << 32u64) | (get_be32(s, i + 4) as u64)
}

/// Reading at offset `i` of `a + b` reads `b` when `a` is `i` bytes long.
pub proof fn lemma_read_after(a: Seq<u8>, b: Seq<u8>, c: Seq<u8>)
    requires
        b.len() >= 8,
    ensures
        read_be32(a + b + c, a.len() as int) == read_be32(b, 0),
        read_be64(a + b + c, a.len() as int) == read_be64(b, 0),
{
    let s = a + b + c;
    let n = a.len() as int;
    assert(s[n] == b[0] && s[n + 1] == b[1] && s[n + 2] == b[2] && s[n + 3] == b[3]);
    assert(s[n + 4] == b[4] && s[n + 5] == b[5] && s[n + 6] == b[6] && s[n + 7] == b[7]);
}

} // verus!
