//! Big-endian integers as byte sequences.

use vstd::prelude::*;

verus! {

/// The number that four bytes spell, most significant byte first.
pub open spec fn be_u32(b: Seq<u8>) -> u32
    recommends
        b.len() == 4,
{
    (b[0] * 0x100_0000 + b[1] * 0x1_0000 + b[2] * 0x100 + b[3]) as u32
}

/// The number that eight bytes spell, most significant byte first.
pub open spec fn be_u64(b: Seq<u8>) -> u64
    recommends
        b.len() == 8,
{
    (be_u32(b.subrange(0, 4)) * 0x1_0000_0000 + be_u32(b.subrange(4, 8))) as u64
}

/// The four bytes that spell `v`, most significant byte first.
pub open spec fn u32_be_bytes(v: u32) -> Seq<u8> {
    seq![
        (v / 0x100_0000) as u8,
        (v / 0x1_0000 % 0x100) as u8,
        (v / 0x100 % 0x100) as u8,
        (v % 0x100) as u8,
    ]
}

/// The eight bytes that spell `v`, most significant byte first.
pub open spec fn u64_be_bytes(v: u64) -> Seq<u8> {
    u32_be_bytes((v / 0x1_0000_0000) as u32) + u32_be_bytes((v % 0x1_0000_0000) as u32)
}

/// Reading back the bytes that spell a 32-bit number gives that number.
pub proof fn lemma_u32_be_roundtrip(v: u32)
    ensures
        u32_be_bytes(v).len() == 4,
        be_u32(u32_be_bytes(v)) == v,
{
}

/// The base-256 digits of a number built from four digits are those digits.
proof fn lemma_digits(b0: int, b1: int, b2: int, b3: int)
    requires
        0 <= b0 < 0x100,
        0 <= b1 < 0x100,
        0 <= b2 < 0x100,
        0 <= b3 < 0x100,
    ensures
        ({
            let n = b0 * 0x100_0000 + b1 * 0x1_0000 + b2 * 0x100 + b3;
            &&& 0 <= n < 0x1_0000_0000
            &&& n / 0x100_0000 == b0
            &&& n / 0x1_0000 % 0x100 == b1
            &&& n / 0x100 % 0x100 == b2
            &&& n % 0x100 == b3
        }),
{
    let n = b0 * 0x100_0000 + b1 * 0x1_0000 + b2 * 0x100 + b3;
    assert(n / 0x100 == b0 * 0x1_0000 + b1 * 0x100 + b2);
    assert(n / 0x1_0000 == b0 * 0x100 + b1);
}

/// Spelling the number read from four bytes gives those four bytes.
pub proof fn lemma_be_u32_bytes(b: Seq<u8>)
    requires
        b.len() == 4,
    ensures
        u32_be_bytes(be_u32(b)) == b,
{
    lemma_digits(b[0] as int, b[1] as int, b[2] as int, b[3] as int);
    assert(u32_be_bytes(be_u32(b)) =~= b);
}

/// Reading back the bytes that spell a 64-bit number gives that number.
pub proof fn lemma_u64_be_roundtrip(v: u64)
    ensures
        u64_be_bytes(v).len() == 8,
        be_u64(u64_be_bytes(v)) == v,
{
    let hi = (v / 0x1_0000_0000) as u32;
    let lo = (v % 0x1_0000_0000) as u32;
    lemma_u32_be_roundtrip(hi);
    lemma_u32_be_roundtrip(lo);
    assert(u64_be_bytes(v).subrange(0, 4) =~= u32_be_bytes(hi));
    assert(u64_be_bytes(v).subrange(4, 8) =~= u32_be_bytes(lo));
}

/// Spelling the number read from eight bytes gives those eight bytes.
pub proof fn lemma_be_u64_bytes(b: Seq<u8>)
    requires
        b.len() == 8,
    ensures
        u64_be_bytes(be_u64(b)) == b,
{
    let hi = b.subrange(0, 4);
    let lo = b.subrange(4, 8);
    lemma_be_u32_bytes(hi);
    lemma_be_u32_bytes(lo);
    let v = be_u64(b);
    assert((v / 0x1_0000_0000) as u32 == be_u32(hi));
    assert((v % 0x1_0000_0000) as u32 == be_u32(lo));
    assert(b =~= hi + lo);
}

/// The big-endian number in a four-byte array.
pub fn u32_from_be(b: [u8; 4]) -> (v: u32)
    ensures
        v == be_u32(b@),
{
    (b[0] as u32) * 0x100_0000 + (b[1] as u32) * 0x1_0000 + (b[2] as u32) * 0x100 + (b[3] as u32)
}

/// The big-endian number in an eight-byte array.
pub fn u64_from_be(b: [u8; 8]) -> (v: u64)
    ensures
        v == be_u64(b@),
{
    let hi: u32 = (b[0] as u32) * 0x100_0000 + (b[1] as u32) * 0x1_0000 + (b[2] as u32) * 0x100 + (
    b[3] as u32);
    let lo: u32 = (b[4] as u32) * 0x100_0000 + (b[5] as u32) * 0x1_0000 + (b[6] as u32) * 0x100 + (
    b[7] as u32);
    (hi as u64) * 0x1_0000_0000 + (lo as u64)
}

/// Appends the four bytes that spell `v`.
pub fn push_u32_be(out: &mut Vec<u8>, v: u32)
    ensures
        final(out)@ == old(out)@ + u32_be_bytes(v),
{
    out.push((v / 0x100_0000) as u8);
    out.push((v / 0x1_0000 % 0x100) as u8);
    out.push((v / 0x100 % 0x100) as u8);
    out.push((v % 0x100) as u8);
    assert(out@ =~= old(out)@ + u32_be_bytes(v));
}

/// Appends the eight bytes that spell `v`.
pub fn push_u64_be(out: &mut Vec<u8>, v: u64)
    ensures
        final(out)@ == old(out)@ + u64_be_bytes(v),
{
    push_u32_be(out, (v / 0x1_0000_0000) as u32);
    push_u32_be(out, (v % 0x1_0000_0000) as u32);
    assert(out@ =~= old(out)@ + u64_be_bytes(v));
}

} // verus!
