use vstd::prelude::*;

verus! {

/// The four bytes of `x`, most significant first.
pub open spec fn be32(x: u32) -> Seq<u8> {
    seq![
        ((x >> 24) & 0xff) as u8,
        ((x >> 16) & 0xff) as u8,
        ((x >> 8) & 0xff) as u8,
        (x & 0xff) as u8,
    ]
}

/// The number whose big-endian bytes are `b0 b1 b2 b3`.
pub open spec fn be32_value(b0: u8, b1: u8, b2: u8, b3: u8) -> u32 {
    ((b0 as u32) << 24) | ((b1 as u32) << 16) | ((b2 as u32) << 8) | (b3 as u32)
}

/// The number that the first four bytes of `s` spell, most significant first.
pub open spec fn from_be32(s: Seq<u8>) -> u32
    recommends
        s.len() >= 4,
{
    be32_value(s[0], s[1], s[2], s[3])
}

/// Decoding the big-endian bytes of a number gives the number back.
pub proof fn lemma_be32_decode_encode(x: u32)
    ensures
        from_be32(be32(x)) == x,
        be32(x).len() == 4,
{
    let b0 = ((x >> 24) & 0xff) as u8;
    let b1 = ((x >> 16) & 0xff) as u8;
    let b2 = ((x >> 8) & 0xff) as u8;
    let b3 = (x & 0xff) as u8;
    assert(be32(x)[0] == b0 && be32(x)[1] == b1 && be32(x)[2] == b2 && be32(x)[3] == b3);
    assert((((((x >> 24) & 0xff) as u8) as u32) << 24) | (((((x >> 16) & 0xff) as u8) as u32) << 16)
        | (((((x >> 8) & 0xff) as u8) as u32) << 8) | (((x & 0xff) as u8) as u32) == x)
        by (bit_vector);
}

/// Encoding the number that four bytes spell gives the four bytes back.
pub proof fn lemma_be32_encode_decode(s: Seq<u8>)
    requires
        s.len() == 4,
    ensures
        be32(from_be32(s)) == s,
{
    let b0 = s[0];
    let b1 = s[1];
    let b2 = s[2];
    let b3 = s[3];
    let x = be32_value(b0, b1, b2, b3);
    assert(x == ((b0 as u32) << 24) | ((b1 as u32) << 16) | ((b2 as u32) << 8) | (b3 as u32));
    assert(((x >> 24) & 0xff) as u8 == b0 && ((x >> 16) & 0xff) as u8 == b1 && ((x >> 8) & 0xff) as u8
        == b2 && (x & 0xff) as u8 == b3) by (bit_vector)
        requires
            x == ((b0 as u32) << 24) | ((b1 as u32) << 16) | ((b2 as u32) << 8) | (b3 as u32),
    ;
    assert(be32(x) =~= s);
}

/// Writes `x` as four bytes, most significant first.
pub fn u32_to_be(x: u32) -> (r: [u8; 4])
    ensures
        r@ == be32(x),
{
    let m0: u32 = (x >> 24) & 0xff;
    let m1: u32 = (x >> 16) & 0xff;
    let m2: u32 = (x >> 8) & 0xff;
    let m3: u32 = x & 0xff;
    assert(m0 <= 0xff && m1 <= 0xff && m2 <= 0xff && m3 <= 0xff) by (bit_vector)
        requires
            m0 == (x >> 24) & 0xff,
            m1 == (x >> 16) & 0xff,
            m2 == (x >> 8) & 0xff,
            m3 == x & 0xff,
    ;
    let r: [u8; 4] = [m0 as u8, m1 as u8, m2 as u8, m3 as u8];
    assert(r@ =~= be32(x));
    r
}

/// Reads four bytes, most significant first, as one number.
pub fn u32_from_be(b0: u8, b1: u8, b2: u8, b3: u8) -> (r: u32)
    ensures
        r == be32_value(b0, b1, b2, b3),
{
    ((b0 as u32) << 24) | ((b1 as u32) << 16) | ((b2 as u32) << 8) | (b3 as u32)
}

} // verus!
