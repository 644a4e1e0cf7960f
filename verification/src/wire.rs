//! Big-endian integers.

use vstd::prelude::*;

verus! {

/// The two bytes of `x`, highest first.
pub open spec fn be16(x: u16) -> Seq<u8> {
    seq![(x / 0x100) as u8, (x % 0x100) as u8]
}

/// The four bytes of `x`, highest first.
pub open spec fn be32(x: u32) -> Seq<u8> {
    seq![
        (x / 0x100_0000) as u8,
        ((x / 0x1_0000) % 0x100) as u8,
        ((x / 0x100) % 0x100) as u8,
        (x % 0x100) as u8,
    ]
}

/// The number that two bytes stand for, highest first.
pub open spec fn from_be16(bytes: Seq<u8>) -> u16 {
    (bytes[0] * 0x100 + bytes[1]) as u16
}

/// The number that four bytes stand for, highest first.
pub open spec fn from_be32(bytes: Seq<u8>) -> u32 {
    (bytes[0] * 0x100_0000 + bytes[1] * 0x1_0000 + bytes[2] * 0x100 + bytes[3]) as u32
}

/// The number that the bytes `high` and `low` stand for.
pub fn join16(high: u8, low: u8) -> (x: u16)
    ensures
        x == from_be16(seq![high, low]),
        be16(x) == seq![high, low],
{
    (high as u16) * 0x100 + (low as u16)
}

/// The number that the four bytes stand for, highest first.
pub fn join32(b0: u8, b1: u8, b2: u8, b3: u8) -> (x: u32)
    ensures
        x == from_be32(seq![b0, b1, b2, b3]),
        be32(x) == seq![b0, b1, b2, b3],
{
    let x = (b0 as u32) * 0x100_0000 + (b1 as u32) * 0x1_0000 + (b2 as u32) * 0x100 + (b3 as u32);
    proof {
        law_big_endian_32(x, seq![b0, b1, b2, b3]);
    }
    x
}

/// The four bytes of `x`, highest first.
pub fn split32(x: u32) -> (bytes: [u8; 4])
    ensures
        bytes@ == be32(x),
{
    let bytes = [
        (x / 0x100_0000) as u8,
        ((x / 0x1_0000) % 0x100) as u8,
        ((x / 0x100) % 0x100) as u8,
        (x % 0x100) as u8,
    ];
    assert(bytes@ =~= be32(x));
    bytes
}

/// Writing a number big-endian and reading it back gives the number, and the other way round.
pub proof fn law_big_endian_16(x: u16, bytes: Seq<u8>)
    ensures
        from_be16(be16(x)) == x,
        bytes.len() == 2 ==> be16(from_be16(bytes)) == bytes,
{
    if bytes.len() == 2 {
        assert(be16(from_be16(bytes)) =~= bytes);
    }
}

/// Writing a number big-endian and reading it back gives the number, and the other way round.
#[verifier::spinoff_prover]
pub proof fn law_big_endian_32(x: u32, bytes: Seq<u8>)
    ensures
        from_be32(be32(x)) == x,
        bytes.len() == 4 ==> be32(from_be32(bytes)) == bytes,
{
    if bytes.len() == 4 {
        let (a, b, c, d) = (bytes[0] as int, bytes[1] as int, bytes[2] as int, bytes[3] as int);
        let sum = from_be32(bytes) as int;
        assert(sum == a * 0x100_0000 + b * 0x1_0000 + c * 0x100 + d);
        assert(sum / 0x100_0000 == a);
        assert(sum / 0x1_0000 == a * 0x100 + b);
        assert(sum / 0x100 == a * 0x1_0000 + b * 0x100 + c);
        assert(be32(from_be32(bytes)) =~= bytes);
    }
}

/// Of the two bytes of a number the first counts 256 times as much as the second.
pub proof fn law_bytes_count_by_their_place_16(x: u16, bytes: Seq<u8>)
    ensures
        be16(x).len() == 2,
        x == 256 * be16(x)[0] + be16(x)[1],
        bytes.len() == 2 ==> from_be16(bytes) == 256 * bytes[0] + bytes[1],
{
}

/// Of the four bytes of a number each counts 256 times as much as the next.
pub proof fn law_bytes_count_by_their_place_32(x: u32, bytes: Seq<u8>)
    ensures
        be32(x).len() == 4,
        x == 256 * (256 * (256 * be32(x)[0] + be32(x)[1]) + be32(x)[2]) + be32(x)[3],
        bytes.len() == 4 ==> from_be32(bytes) == 256 * (256 * (256 * bytes[0] + bytes[1])
            + bytes[2]) + bytes[3],
{
}

} // verus!
