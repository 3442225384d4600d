//! Big-endian encoding of 32-bit integers, as used on the wire.
use vstd::prelude::*;

verus! {

/// The four bytes of `x`, most significant first.
pub open spec fn be_bytes(x: u32) -> Seq<u8> {
    seq![(x >> 24u32) as u8, (x >> 16u32) as u8, (x >> 8u32) as u8, x as u8]
}

/// The integer whose big-endian bytes are `b0 b1 b2 b3`.
pub open spec fn be_value4(b0: u8, b1: u8, b2: u8, b3: u8) -> u32 {
    ((b0 as u32) << 24u32) | ((b1 as u32) << 16u32) | ((b2 as u32) << 8u32) | (b3 as u32)
}

/// The integer whose big-endian bytes are the first four of `s`.
pub open spec fn be_value(s: Seq<u8>) -> u32 {
    be_value4(s[0], s[1], s[2], s[3])
}

/// Reading back the bytes of an integer gives the integer.
pub proof fn lemma_be_value_of_bytes(x: u32)
    ensures
        be_value(be_bytes(x)) == x,
{
    let b = be_bytes(x);
    let b0 = b[0];
    let b1 = b[1];
    let b2 = b[2];
    let b3 = b[3];
    assert(b0 == (x >> 24u32) as u8);
    assert(b3 == x as u8);
    assert(be_value4((x >> 24u32) as u8, (x >> 16u32) as u8, (x >> 8u32) as u8, x as u8) == x)
        by (bit_vector);
}

/// Writing out the value of four bytes gives those bytes back.
pub proof fn lemma_be_bytes_of_value(s: Seq<u8>)
    requires
        s.len() == 4,
    ensures
        be_bytes(be_value(s)) == s,
{
    let b0 = s[0];
    let b1 = s[1];
    let b2 = s[2];
    let b3 = s[3];
    let v = be_value4(b0, b1, b2, b3);
    assert((v >> 24u32) as u8 == b0 && (v >> 16u32) as u8 == b1 && (v >> 8u32) as u8 == b2
        && v as u8 == b3) by (bit_vector)
        requires
            v == be_value4(b0, b1, b2, b3),
    ;
    assert(be_bytes(v) =~= s);
}

/// Appends the big-endian bytes of `x` to `dst`.
pub fn put_u32_be(dst: &mut Vec<u8>, x: u32)
    ensures
        final(dst)@ == old(dst)@ + be_bytes(x),
{
    dst.push((x >> 24u32) as u8);
    dst.push((x >> 16u32) as u8);
    dst.push((x >> 8u32) as u8);
    dst.push(x as u8);
    assert(final(dst)@ =~= old(dst)@ + be_bytes(x));
}

/// Reads the big-endian integer stored at `at .. at + 4` of `src`.
pub fn get_u32_be(src: &[u8], at: usize) -> (v: u32)
    requires
        at + 4 <= src@.len(),
    ensures
        v == be_value(src@.subrange(at as int, at + 4)),
{
    ((src[at] as u32) << 24u32) | ((src[at + 1] as u32) << 16u32) | ((src[at + 2] as u32) << 8u32)
        | (src[at + 3] as u32)
}

} // verus!
