//! Byte-level building blocks: big-endian 32-bit words, the integer encoding
//! used on the wire, and appending to a buffer.

use vstd::prelude::*;

verus! {

/// The four bytes of `v`, most significant first.
pub open spec fn be32(v: u32) -> Seq<u8> {
    seq![
        (v / 0x100_0000) as u8,
        ((v / 0x1_0000) % 0x100) as u8,
        ((v / 0x100) % 0x100) as u8,
        (v % 0x100) as u8,
    ]
}

/// The number that the first four bytes of `b` spell, most significant first.
pub open spec fn be32_value(b: Seq<u8>) -> int
    recommends
        b.len() >= 4,
{
    b[0] * 0x100_0000 + b[1] * 0x1_0000 + b[2] * 0x100 + b[3]
}

/// Decoding undoes encoding.
pub proof fn lemma_be32_value_of_be32(v: u32)
    ensures
        be32(v).len() == 4,
        be32_value(be32(v)) == v,
{
}

/// Encoding undoes decoding: four bytes spell a number below 2^32 whose
/// encoding is those four bytes.
pub proof fn lemma_be32_of_be32_value(b: Seq<u8>)
    requires
        b.len() == 4,
    ensures
        0 <= be32_value(b) <= u32::MAX,
        be32(be32_value(b) as u32) == b,
{
    let (b0, b1, b2, b3) = (b[0] as int, b[1] as int, b[2] as int, b[3] as int);
    let v = be32_value(b);
    let low = b1 * 0x1_0000 + b2 * 0x100 + b3;
    assert(v == b0 * 0x100_0000 + low && 0 <= low < 0x100_0000);
    assert(v / 0x100_0000 == b0 && (v / 0x1_0000) % 0x100 == b1 && (v / 0x100) % 0x100 == b2 && v
        % 0x100 == b3) by (nonlinear_arith)
        requires
            v == b0 * 0x100_0000 + b1 * 0x1_0000 + b2 * 0x100 + b3,
            0 <= b0 < 0x100,
            0 <= b1 < 0x100,
            0 <= b2 < 0x100,
            0 <= b3 < 0x100,
    ;
    assert(be32(v as u32) =~= b);
}

/// Appends the big-endian encoding of `v` to `out`.
pub fn push_be32(out: &mut Vec<u8>, v: u32)
    ensures
        final(out)@ == old(out)@ + be32(v),
{
    let b0: u8 = (v >> 24) as u8;
    let b1: u8 = ((v >> 16) & 0xff) as u8;
    let b2: u8 = ((v >> 8) & 0xff) as u8;
    let b3: u8 = (v & 0xff) as u8;
    assert(v >> 24 == v / 0x100_0000) by (bit_vector);
    assert((v >> 16) & 0xff == (v / 0x1_0000) % 0x100) by (bit_vector);
    assert((v >> 8) & 0xff == (v / 0x100) % 0x100) by (bit_vector);
    assert(v & 0xff == v % 0x100) by (bit_vector);
    out.push(b0);
    out.push(b1);
    out.push(b2);
    out.push(b3);
    assert(out@ =~= old(out)@ + be32(v));
}

/// Reads the big-endian word that starts at `at`.
pub fn read_be32(bytes: &[u8], at: usize) -> (v: u32)
    requires
        at + 4 <= bytes@.len(),
    ensures
        v == be32_value(bytes@.subrange(at as int, at + 4)),
{
    let b0: u32 = bytes[at] as u32;
    let b1: u32 = bytes[at + 1] as u32;
    let b2: u32 = bytes[at + 2] as u32;
    let b3: u32 = bytes[at + 3] as u32;
    b0 * 0x100_0000 + b1 * 0x1_0000 + b2 * 0x100 + b3
}

/// Appends `src` to `out`.
pub fn append(out: &mut Vec<u8>, src: &[u8])
    ensures
        final(out)@ == old(out)@ + src@,
{
    let mut i: usize = 0;
    while i < src.len()
        invariant
            i <= src@.len(),
            out@ == old(out)@ + src@.subrange(0, i as int),
        decreases src@.len() - i,
    {
        out.push(src[i]);
        i += 1;
        assert(out@ =~= old(out)@ + src@.subrange(0, i as int));
    }
    assert(src@.subrange(0, i as int) =~= src@);
}

} // verus!
