//! Link-layer and network-layer addresses: 48-bit MAC addresses with their
//! broadcast and null sentinels, and 32-bit IPv4 addresses.

use vstd::prelude::*;
use crate::bytes::be32;

verus! {

/// A 48-bit hardware address.
#[derive(Clone, Copy, PartialEq, Eq, Structural, Debug, Hash)]
pub struct MacAddr(pub u8, pub u8, pub u8, pub u8, pub u8, pub u8);

impl MacAddr {
    pub fn new(a: u8, b: u8, c: u8, d: u8, e: u8, f: u8) -> (r: MacAddr)
        ensures
            r == MacAddr(a, b, c, d, e, f),
    {
        MacAddr(a, b, c, d, e, f)
    }

    /// The all-ones broadcast address.
    pub open spec fn broadcast_spec() -> MacAddr {
        MacAddr(0xFF, 0xFF, 0xFF, 0xFF, 0xFF, 0xFF)
    }

    pub fn broadcast() -> (r: MacAddr)
        ensures
            r == MacAddr::broadcast_spec(),
    {
        MacAddr(0xFF, 0xFF, 0xFF, 0xFF, 0xFF, 0xFF)
    }

    /// The all-zero null address, used as the unknown target of an ARP
    /// request.
    pub open spec fn null_spec() -> MacAddr {
        MacAddr(0, 0, 0, 0, 0, 0)
    }

    pub fn null() -> (r: MacAddr)
        ensures
            r == MacAddr::null_spec(),
    {
        MacAddr(0, 0, 0, 0, 0, 0)
    }
}

/// A 32-bit IPv4 address, kept as its four dotted-quad octets.
#[derive(Clone, Copy, PartialEq, Eq, Structural, Debug, Hash)]
pub struct Ipv4Addr(pub u8, pub u8, pub u8, pub u8);

impl Ipv4Addr {
    pub fn new(a: u8, b: u8, c: u8, d: u8) -> (r: Ipv4Addr)
        ensures
            r == Ipv4Addr(a, b, c, d),
    {
        Ipv4Addr(a, b, c, d)
    }

    /// The address as the 32-bit value its octets encode big-endian.
    pub open spec fn to_bits_spec(self) -> u32 {
        be32(self.0, self.1, self.2, self.3)
    }

    pub fn to_bits(self) -> (r: u32)
        ensures
            r == self.to_bits_spec(),
    {
        crate::bytes::u32_from_be(self.0, self.1, self.2, self.3)
    }
}

} // verus!
