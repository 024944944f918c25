//! CRC-32 (ISO-3309, reflected polynomial 0xEDB88320), computed bit by bit.
use vstd::prelude::*;

verus! {

/// The reflected CRC-32 generator polynomial.
pub const CRC_POLY: u32 = 0xEDB8_8320;

/// One register step: shift right by one bit, folding in the polynomial
/// when the bit shifted out was set.
pub open spec fn crc_shift(c: u32) -> u32 {
    if c & 1 == 1 {
        (c >> 1) ^ CRC_POLY
    } else {
        c >> 1
    }
}

/// `n` register steps applied to `c`.
pub open spec fn crc_shifts(c: u32, n: nat) -> u32
    decreases n,
{
    if n == 0 {
        c
    } else {
        crc_shift(crc_shifts(c, (n - 1) as nat))
    }
}

/// The register after consuming one byte, least significant bit first.
pub open spec fn crc_feed(c: u32, b: u8) -> u32 {
    crc_shifts(c ^ (b as u32), 8)
}

/// The register after consuming all of `s`, starting from all ones.
pub open spec fn crc_register(s: Seq<u8>) -> u32
    decreases s.len(),
{
    if s.len() == 0 {
        0xFFFF_FFFF
    } else {
        crc_feed(crc_register(s.drop_last()), s.last())
    }
}

/// The CRC-32 of `s`: the final register, complemented.
pub open spec fn crc32(s: Seq<u8>) -> u32 {
    crc_register(s) ^ 0xFFFF_FFFF
}

/// The checksum of the empty sequence is zero.
pub proof fn lemma_checksum_empty()
    ensures
        crc32(Seq::<u8>::empty()) == 0,
{
    assert(0xFFFF_FFFFu32 ^ 0xFFFF_FFFFu32 == 0u32) by (bit_vector);
}

/// Computes the CRC-32 of `bytes`.
pub fn checksum(bytes: &[u8]) -> (r: u32)
    ensures
        r == crc32(bytes@),
{
    let mut c: u32 = 0xFFFF_FFFF;
    let mut i: usize = 0;
    while i < bytes.len()
        invariant
            i <= bytes@.len(),
            c == crc_register(bytes@.take(i as int)),
        decreases bytes@.len() - i,
    {
        let start: u32 = c ^ (bytes[i] as u32);
        c = start;
        let mut j: usize = 0;
        while j < 8
            invariant
                j <= 8,
                c == crc_shifts(start, j as nat),
            decreases 8 - j,
        {
            if c & 1 == 1 {
                c = (c >> 1) ^ CRC_POLY;
            } else {
                c = c >> 1;
            }
            j = j + 1;
        }
        assert(bytes@.take(i as int + 1).drop_last() =~= bytes@.take(i as int));
        i = i + 1;
    }
    assert(bytes@.take(i as int) =~= bytes@);
    c ^ 0xFFFF_FFFF
}

} // verus!
