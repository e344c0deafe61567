//! Big-endian byte encoding of 16-bit words, and the one's-complement
//! checksum used by the IPv4 and ICMP headers.

use vstd::prelude::*;

verus! {

/// The 16-bit value encoded big-endian by the byte pair `(hi, lo)`.
pub open spec fn be16(hi: u8, lo: u8) -> u16 {
    (hi * 256 + lo) as u16
}

/// High byte of the big-endian encoding of `v`.
pub open spec fn be16_hi(v: u16) -> u8 {
    (v / 256) as u8
}

/// Low byte of the big-endian encoding of `v`.
pub open spec fn be16_lo(v: u16) -> u8 {
    (v % 256) as u8
}

pub proof fn lemma_be16_split_join(v: u16)
    ensures
        be16(be16_hi(v), be16_lo(v)) == v,
{
}

pub proof fn lemma_be16_join_split(hi: u8, lo: u8)
    ensures
        be16_hi(be16(hi, lo)) == hi,
        be16_lo(be16(hi, lo)) == lo,
{
}

/// Splits `v` into its big-endian byte pair.
pub fn u16_to_be(v: u16) -> (r: (u8, u8))
    ensures
        r.0 == be16_hi(v),
        r.1 == be16_lo(v),
        be16(r.0, r.1) == v,
{
    ((v / 256) as u8, (v % 256) as u8)
}

/// Joins a big-endian byte pair into the 16-bit value it encodes.
pub fn u16_from_be(hi: u8, lo: u8) -> (r: u16)
    ensures
        r == be16(hi, lo),
        be16_hi(r) == hi,
        be16_lo(r) == lo,
{
    hi as u16 * 256 + lo as u16
}

/// The 32-bit value encoded big-endian by four bytes.
pub open spec fn be32(b0: u8, b1: u8, b2: u8, b3: u8) -> u32 {
    (b0 * 0x1000000 + b1 * 0x10000 + b2 * 0x100 + b3) as u32
}

/// Joins four big-endian bytes into the 32-bit value they encode.
pub fn u32_from_be(b0: u8, b1: u8, b2: u8, b3: u8) -> (r: u32)
    ensures
        r == be32(b0, b1, b2, b3),
{
    b0 as u32 * 0x1000000 + b1 as u32 * 0x10000 + b2 as u32 * 0x100 + b3 as u32
}

} // verus!
