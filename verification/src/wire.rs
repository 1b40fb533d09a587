//! Integers and strings as the wire protocol writes them.

use vstd::prelude::*;

verus! {

/// The four bytes of a 32-bit integer in network (big-endian) order; `v` is
/// taken modulo 2^32, as a two's-complement `i32` or a `u32` is.
pub open spec fn be32(v: int) -> Seq<u8> {
    let u = v % 0x1_0000_0000;
    seq![
        (u / 0x100_0000) as u8,
        (u / 0x1_0000 % 0x100) as u8,
        (u / 0x100 % 0x100) as u8,
        (u % 0x100) as u8,
    ]
}

/// The two bytes of a 16-bit integer in network order; `v` is taken modulo 2^16.
pub open spec fn be16(v: int) -> Seq<u8> {
    let u = v % 0x1_0000;
    seq![(u / 0x100) as u8, (u % 0x100) as u8]
}

/// The integer that four bytes in network order stand for, read unsigned.
pub open spec fn read_be32(b: Seq<u8>) -> int {
    b[0] * 0x100_0000 + b[1] * 0x1_0000 + b[2] * 0x100 + b[3]
}

/// The integer that two bytes in network order stand for, read unsigned.
pub open spec fn read_be16(b: Seq<u8>) -> int {
    b[0] * 0x100 + b[1]
}

/// Two bytes in network order read back give the integer they were written
/// from, for every integer that fits in 16 unsigned bits.
pub proof fn lemma_read_be16_of_be16(v: int)
    requires
        0 <= v < 0x1_0000,
    ensures
        be16(v).len() == 2,
        read_be16(be16(v)) == v,
{
    let u = v % 0x1_0000;
    assert(u == v);
}

/// Four bytes in network order read back give the integer they were written
/// from, for every integer that fits in 32 unsigned bits.
pub proof fn lemma_read_be32_of_be32(v: int)
    requires
        0 <= v < 0x1_0000_0000,
    ensures
        be32(v).len() == 4,
        read_be32(be32(v)) == v,
{
    let u = v % 0x1_0000_0000;
    assert(u == v);
    let b0 = u / 0x100_0000;
    let b1 = u / 0x1_0000 % 0x100;
    let b2 = u / 0x100 % 0x100;
    let b3 = u % 0x100;
    assert(0 <= b0 < 0x100);
    assert(b0 * 0x100_0000 + b1 * 0x1_0000 + b2 * 0x100 + b3 == u);
}

/// Four bytes in network order read back as the integer they were written
/// from, taken modulo 2^32 (so a negative `i32` reads back as its `u32` bits).
pub proof fn lemma_read_be32_of_be32_wrapping(v: int)
    ensures
        be32(v).len() == 4,
        read_be32(be32(v)) == v % 0x1_0000_0000,
{
    let u = v % 0x1_0000_0000;
    let b0 = u / 0x100_0000;
    let b1 = u / 0x1_0000 % 0x100;
    let b2 = u / 0x100 % 0x100;
    let b3 = u % 0x100;
    assert(0 <= b0 < 0x100);
    assert(b0 * 0x100_0000 + b1 * 0x1_0000 + b2 * 0x100 + b3 == u);
}

/// Two bytes in network order read back as the integer they were written
/// from, taken modulo 2^16.
pub proof fn lemma_read_be16_of_be16_wrapping(v: int)
    ensures
        be16(v).len() == 2,
        read_be16(be16(v)) == v % 0x1_0000,
{
}

} // verus!
