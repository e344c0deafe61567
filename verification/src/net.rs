//! IPv4 networks as (base address, prefix length) pairs, and the per-interface
//! IPv4 configuration with its gateway-containment invariant.

use vstd::prelude::*;
use crate::addr::Ipv4Addr;

verus! {

/// Why an IPv4 configuration could not be built.
#[derive(Clone, Copy, PartialEq, Eq, Structural, Debug)]
pub enum IpConfError {
    /// The network was not valid: the prefix length exceeds 32.
    InvalidNetwork,
    /// The gateway lies outside the configured subnet.
    GwNotInNetwork,
}

/// The 32-bit network mask of a prefix length (`prefix <= 32`).
pub open spec fn mask_of(prefix: u8) -> u32 {
    if prefix == 0 {
        0u32
    } else {
        (0xFFFF_FFFFu32 << ((32 - prefix) as u32)) as u32
    }
}

/// An IPv4 network: a base address and a prefix length.
#[derive(Clone, Copy, PartialEq, Eq, Structural, Debug)]
pub struct Ipv4Network {
    pub base: Ipv4Addr,
    pub prefix: u8,
}

impl Ipv4Network {
    /// A network is well formed when its prefix fits in 32 bits.
    pub open spec fn wf(self) -> bool {
        self.prefix <= 32
    }

    /// Membership: `ip` agrees with the base address on all mask bits.
    pub open spec fn contains_spec(self, ip: Ipv4Addr) -> bool {
        ip.to_bits_spec() & mask_of(self.prefix) == self.base.to_bits_spec() & mask_of(
            self.prefix,
        )
    }

    /// The network address: the base with all host bits cleared.
    pub open spec fn network_bits(self) -> u32 {
        self.base.to_bits_spec() & mask_of(self.prefix)
    }

    /// The broadcast address: the base with all host bits set.
    pub open spec fn broadcast_bits(self) -> u32 {
        self.network_bits() | (!mask_of(self.prefix)) as u32
    }

    /// Builds a network; fails when the prefix does not fit in 32 bits.
    pub fn new(base: Ipv4Addr, prefix: u8) -> (r: Result<Ipv4Network, IpConfError>)
        ensures
            prefix <= 32 ==> r == Result::<Ipv4Network, IpConfError>::Ok(
                Ipv4Network { base, prefix },
            ),
            prefix > 32 ==> r == Result::<Ipv4Network, IpConfError>::Err(
                IpConfError::InvalidNetwork,
            ),
    {
        if prefix > 32 {
            Err(IpConfError::InvalidNetwork)
        } else {
            Ok(Ipv4Network { base, prefix })
        }
    }

    /// The bitmask membership test.
    pub fn contains(&self, ip: Ipv4Addr) -> (r: bool)
        requires
            self.wf(),
        ensures
            r == self.contains_spec(ip),
    {
        let m = mask(self.prefix);
        ip.to_bits() & m == self.base.to_bits() & m
    }
}

/// Computes the network mask of a prefix length.
pub fn mask(prefix: u8) -> (r: u32)
    requires
        prefix <= 32,
    ensures
        r == mask_of(prefix),
{
    if prefix == 0 {
        0
    } else {
        0xFFFF_FFFFu32 << ((32 - prefix) as u32)
    }
}

/// Both edge addresses of a subnet are members of it: the network address
/// (host bits cleared) and the broadcast address (host bits set).
pub proof fn lemma_network_edges_contained(net: Ipv4Network, lo: Ipv4Addr, hi: Ipv4Addr)
    requires
        net.wf(),
        lo.to_bits_spec() == net.network_bits(),
        hi.to_bits_spec() == net.broadcast_bits(),
    ensures
        net.contains_spec(lo),
        net.contains_spec(hi),
{
    let b = net.base.to_bits_spec();
    let m = mask_of(net.prefix);
    assert((b & m) & m == b & m) by (bit_vector);
    assert(((b & m) | !m) & m == b & m) by (bit_vector);
}

/// IP settings for one IPv4 interface: the local address, the gateway, and
/// the local network.
#[derive(Clone, Copy, PartialEq, Eq, Structural, Debug)]
pub struct Ipv4Config {
    /// The address of the local host.
    pub ip: Ipv4Addr,
    pub gw: Ipv4Addr,
    pub net: Ipv4Network,
}

impl Ipv4Config {
    /// The construction invariant: a well-formed network of `ip/prefix` that
    /// contains the gateway.
    pub open spec fn wf(self) -> bool {
        &&& self.net.wf()
        &&& self.net.base == self.ip
        &&& self.net.contains_spec(self.gw)
    }

    /// Builds a configuration over the network `ip/prefix`. Succeeds exactly
    /// when the prefix is valid and the network contains the gateway.
    pub fn new(ip: Ipv4Addr, prefix: u8, gw: Ipv4Addr) -> (r: Result<Ipv4Config, IpConfError>)
        ensures
            match r {
                Ok(c) => {
                    &&& prefix <= 32
                    &&& c == (Ipv4Config { ip, gw, net: Ipv4Network { base: ip, prefix } })
                    &&& c.wf()
                },
                Err(e) => {
                    &&& e == IpConfError::InvalidNetwork <==> prefix > 32
                    &&& e == IpConfError::GwNotInNetwork <==> (prefix <= 32 && !(Ipv4Network {
                        base: ip,
                        prefix,
                    }).contains_spec(gw))
                },
            },
            r is Ok <==> (prefix <= 32 && (Ipv4Network { base: ip, prefix }).contains_spec(gw)),
    {
        let net = match Ipv4Network::new(ip, prefix) {
            Ok(n) => n,
            Err(e) => {
                return Err(e);
            },
        };
        if !net.contains(gw) {
            Err(IpConfError::GwNotInNetwork)
        } else {
            Ok(Ipv4Config { ip, gw, net })
        }
    }
}

} // verus!
