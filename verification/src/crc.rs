//! CRC-32 (IEEE 802.3, reflected), specified bit by bit and computed byte by
//! byte through a lookup table.

use vstd::prelude::*;

verus! {

/// The generator polynomial of CRC-32, with its bits reflected.
pub const POLYNOMIAL: u32 = 0xEDB8_8320;

/// The register before the first byte, and the mask applied to it after the last.
pub const ALL_ONES: u32 = 0xFFFF_FFFF;

/// The register after one bit has been shifted out of it: the polynomial is
/// folded in exactly when that bit was set.
pub open spec fn shift_bit(reg: u32) -> u32 {
    if reg & 1 == 1 {
        POLYNOMIAL ^ (reg >> 1)
    } else {
        reg >> 1
    }
}

/// The register after `n` bits have been shifted out of it.
pub open spec fn shift_bits(reg: u32, n: nat) -> u32
    decreases n,
{
    if n == 0 {
        reg
    } else {
        shift_bit(shift_bits(reg, (n - 1) as nat))
    }
}

/// The register after a whole byte has been shifted out of it.
pub open spec fn shift_byte(reg: u32) -> u32 {
    shift_bit(shift_bit(shift_bit(shift_bit(shift_bit(shift_bit(shift_bit(shift_bit(reg))))))))
}

/// The register after `byte` has been fed into it: the byte is folded into the
/// low eight bits, which are then shifted out.
pub open spec fn feed(reg: u32, byte: u8) -> u32 {
    shift_byte(reg ^ (byte as u32))
}

/// The register after all of `bytes` have been fed into it, first to last,
/// starting from all ones.
pub open spec fn register(bytes: Seq<u8>) -> u32
    decreases bytes.len(),
{
    if bytes.len() == 0 {
        ALL_ONES
    } else {
        feed(register(bytes.drop_last()), bytes.last())
    }
}

/// The CRC-32 of `bytes`: the complement of the final register.
pub open spec fn checksum(bytes: Seq<u8>) -> u32 {
    register(bytes) ^ ALL_ONES
}

/// Shifting eight bits one at a time is shifting a byte.
pub proof fn lemma_shift_bits_byte(reg: u32)
    ensures
        shift_bits(reg, 8) == shift_byte(reg),
{
    reveal_with_fuel(shift_bits, 9);
}

/// The table-driven step: shifting a byte out of the register is the same as
/// dropping its low byte and folding in what that low byte alone shifts to.
pub proof fn lemma_table_step(reg: u32, byte: u8)
    ensures
        (reg & 0xff) ^ (byte as u32) < 256,
        feed(reg, byte) == (reg >> 8) ^ shift_byte((reg & 0xff) ^ (byte as u32)),
{
    assert((reg & 0xff) ^ (byte as u32) < 256) by (bit_vector);
    assert(shift_byte(reg ^ (byte as u32)) == (reg >> 8) ^ shift_byte((reg & 0xff) ^ (byte as u32)))
        by (bit_vector);
}

/// The lookup table: entry `n` is what the register `n` becomes once its low
/// byte has been shifted out.
pub fn crc32_compute_table() -> (table: [u32; 256])
    ensures
        forall|n: int| 0 <= n < 256 ==> #[trigger] table[n] == shift_byte(n as u32),
{
    let mut table: [u32; 256] = [0; 256];
    let mut n: usize = 0;
    while n < 256
        invariant
            n <= 256,
            forall|m: int| 0 <= m < n ==> #[trigger] table[m] == shift_byte(m as u32),
        decreases 256 - n,
    {
        let mut acc: u32 = n as u32;
        let mut bit: usize = 0;
        while bit < 8
            invariant
                bit <= 8,
                n < 256,
                acc == shift_bits(n as u32, bit as nat),
            decreases 8 - bit,
        {
            acc = if acc & 1 == 1 {
                POLYNOMIAL ^ (acc >> 1)
            } else {
                acc >> 1
            };
            bit += 1;
        }
        proof {
            lemma_shift_bits_byte(n as u32);
        }
        table[n] = acc;
        n += 1;
    }
    table
}

/// The CRC-32 of `buf`.
pub fn crc32(buf: &[u8]) -> (crc: u32)
    ensures
        crc == checksum(buf@),
{
    let table = crc32_compute_table();
    let mut acc: u32 = ALL_ONES;
    let mut i: usize = 0;
    while i < buf.len()
        invariant
            i <= buf.len(),
            acc == register(buf@.take(i as int)),
            forall|n: int| 0 <= n < 256 ==> #[trigger] table[n] == shift_byte(n as u32),
        decreases buf.len() - i,
    {
        let octet: u8 = buf[i];
        proof {
            lemma_table_step(acc, octet);
            assert(buf@.take(i + 1).drop_last() =~= buf@.take(i as int));
        }
        let index: u32 = (acc & 0xff) ^ (octet as u32);
        acc = (acc >> 8) ^ table[index as usize];
        i += 1;
    }
    proof {
        assert(buf@.take(i as int) =~= buf@);
    }
    acc ^ ALL_ONES
}

} // verus!
