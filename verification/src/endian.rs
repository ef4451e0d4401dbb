//! Unsigned 32-bit integers as four bytes, most significant byte first.

use vstd::prelude::*;

verus! {

/// The integer that the four bytes of `bytes` spell, most significant first.
#[verifier::opaque]
pub open spec fn u32_from_be(bytes: Seq<u8>) -> u32
    recommends
        bytes.len() == 4,
{
    (bytes[0] * 0x100_0000 + bytes[1] * 0x1_0000 + bytes[2] * 0x100 + bytes[3]) as u32
}

/// The four bytes that spell `value`, most significant first.
#[verifier::opaque]
pub open spec fn u32_to_be(value: u32) -> Seq<u8> {
    seq![
        (value / 0x100_0000) as u8,
        (value / 0x1_0000 % 0x100) as u8,
        (value / 0x100 % 0x100) as u8,
        (value % 0x100) as u8,
    ]
}

/// An integer is read back from the bytes that spell it.
pub proof fn lemma_u32_be_round_trip(value: u32)
    ensures
        u32_to_be(value).len() == 4,
        u32_from_be(u32_to_be(value)) == value,
{
    reveal(u32_from_be);
    reveal(u32_to_be);
    assert(value == (value / 0x100_0000) * 0x100_0000 + (value / 0x1_0000 % 0x100) * 0x1_0000 + (
    value / 0x100 % 0x100) * 0x100 + value % 0x100 && value / 0x100_0000 < 0x100) by (bit_vector);
}

/// Four bytes are spelled back by the integer read from them, so that
/// different bytes spell different integers.
pub proof fn lemma_bytes_be_round_trip(bytes: Seq<u8>)
    requires
        bytes.len() == 4,
    ensures
        u32_to_be(u32_from_be(bytes)) == bytes,
{
    reveal(u32_from_be);
    reveal(u32_to_be);
    let b0: u32 = bytes[0] as u32;
    let b1: u32 = bytes[1] as u32;
    let b2: u32 = bytes[2] as u32;
    let b3: u32 = bytes[3] as u32;
    let value: u32 = u32_from_be(bytes);
    assert(value / 0x100_0000 == b0 && value / 0x1_0000 % 0x100 == b1 && value / 0x100 % 0x100
        == b2 && value % 0x100 == b3) by (bit_vector)
        requires
            b0 < 0x100,
            b1 < 0x100,
            b2 < 0x100,
            b3 < 0x100,
            value == b0 * 0x100_0000 + b1 * 0x1_0000 + b2 * 0x100 + b3,
    ;
}

/// Different bytes spell different integers.
pub proof fn lemma_u32_from_be_is_injective(a: Seq<u8>, b: Seq<u8>)
    requires
        a.len() == 4,
        b.len() == 4,
        u32_from_be(a) == u32_from_be(b),
    ensures
        a == b,
{
    lemma_bytes_be_round_trip(a);
    lemma_bytes_be_round_trip(b);
}

/// The integer that `bytes` spell, most significant byte first.
pub fn from_be_bytes(bytes: [u8; 4]) -> (value: u32)
    ensures
        value == u32_from_be(bytes@),
{
    let b0: u32 = bytes[0] as u32;
    let b1: u32 = bytes[1] as u32;
    let b2: u32 = bytes[2] as u32;
    let b3: u32 = bytes[3] as u32;
    proof {
        reveal(u32_from_be);
    }
    b0 * 0x100_0000 + b1 * 0x1_0000 + b2 * 0x100 + b3
}

/// The four bytes that spell `value`, most significant byte first.
pub fn to_be_bytes(value: u32) -> (bytes: [u8; 4])
    ensures
        bytes@ == u32_to_be(value),
{
    let bytes: [u8; 4] = [
        (value / 0x100_0000) as u8,
        (value / 0x1_0000 % 0x100) as u8,
        (value / 0x100 % 0x100) as u8,
        (value % 0x100) as u8,
    ];
    proof {
        reveal(u32_to_be);
    }
    bytes
}

} // verus!
