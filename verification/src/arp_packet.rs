//! The 28-byte ARP packet for IPv4 over Ethernet: its wire layout, parser,
//! and the builder of the broadcast request frame that resolution emits.

use vstd::prelude::*;
use crate::addr::{Ipv4Addr, MacAddr};
use crate::bytes::{be16, be16_hi, be16_lo, u16_from_be, u16_to_be};
use crate::ethernet::{spec_frame_bytes, EthernetTx, ETHERTYPE_ARP, ETHERTYPE_IPV4};

verus! {

/// Wire size of an ARP packet for 6-byte hardware and 4-byte protocol
/// addresses.
pub const ARP_PACKET_SIZE: usize = 28;

/// ARP hardware type for Ethernet.
pub const ARP_HTYPE_ETHERNET: u16 = 1;

/// ARP operation: request.
pub const ARP_OP_REQUEST: u16 = 1;

/// ARP operation: reply.
pub const ARP_OP_REPLY: u16 = 2;

/// A parsed ARP packet.
#[derive(Clone, Copy, PartialEq, Eq, Structural, Debug)]
pub struct ArpPacket {
    pub hardware_type: u16,
    pub protocol_type: u16,
    pub hw_addr_len: u8,
    pub proto_addr_len: u8,
    pub operation: u16,
    pub sender_hw: MacAddr,
    pub sender_proto: Ipv4Addr,
    pub target_hw: MacAddr,
    pub target_proto: Ipv4Addr,
}

/// The wire form of an ARP packet: all fields in order, multi-byte fields
/// big-endian.
pub open spec fn spec_arp_bytes(p: ArpPacket) -> Seq<u8> {
    seq![
        be16_hi(p.hardware_type),
        be16_lo(p.hardware_type),
        be16_hi(p.protocol_type),
        be16_lo(p.protocol_type),
        p.hw_addr_len,
        p.proto_addr_len,
        be16_hi(p.operation),
        be16_lo(p.operation),
        p.sender_hw.0,
        p.sender_hw.1,
        p.sender_hw.2,
        p.sender_hw.3,
        p.sender_hw.4,
        p.sender_hw.5,
        p.sender_proto.0,
        p.sender_proto.1,
        p.sender_proto.2,
        p.sender_proto.3,
        p.target_hw.0,
        p.target_hw.1,
        p.target_hw.2,
        p.target_hw.3,
        p.target_hw.4,
        p.target_hw.5,
        p.target_proto.0,
        p.target_proto.1,
        p.target_proto.2,
        p.target_proto.3,
    ]
}

/// What parsing a byte string as an ARP packet yields. Bytes beyond the
/// 28-byte packet (link-layer padding) are ignored.
pub open spec fn spec_parse_arp(b: Seq<u8>) -> Option<ArpPacket> {
    if b.len() >= 28 {
        Some(
            ArpPacket {
                hardware_type: be16(b[0], b[1]),
                protocol_type: be16(b[2], b[3]),
                hw_addr_len: b[4],
                proto_addr_len: b[5],
                operation: be16(b[6], b[7]),
                sender_hw: MacAddr(b[8], b[9], b[10], b[11], b[12], b[13]),
                sender_proto: Ipv4Addr(b[14], b[15], b[16], b[17]),
                target_hw: MacAddr(b[18], b[19], b[20], b[21], b[22], b[23]),
                target_proto: Ipv4Addr(b[24], b[25], b[26], b[27]),
            },
        )
    } else {
        None
    }
}

/// Any ARP packet survives a serialize-then-parse round trip unchanged.
pub proof fn lemma_arp_round_trip(p: ArpPacket)
    ensures
        spec_parse_arp(spec_arp_bytes(p)) == Some(p),
{
    crate::bytes::lemma_be16_split_join(p.hardware_type);
    crate::bytes::lemma_be16_split_join(p.protocol_type);
    crate::bytes::lemma_be16_split_join(p.operation);
}

impl ArpPacket {
    /// The packet's wire form.
    pub open spec fn bytes_spec(&self) -> Seq<u8> {
        spec_arp_bytes(*self)
    }

    /// Serializes the packet.
    pub fn to_bytes(&self) -> (r: Vec<u8>)
        ensures
            r@ == spec_arp_bytes(*self),
            r@.len() == 28,
    {
        let mut r: Vec<u8> = Vec::new();
        let (ht_hi, ht_lo) = u16_to_be(self.hardware_type);
        r.push(ht_hi);
        r.push(ht_lo);
        let (pt_hi, pt_lo) = u16_to_be(self.protocol_type);
        r.push(pt_hi);
        r.push(pt_lo);
        r.push(self.hw_addr_len);
        r.push(self.proto_addr_len);
        let (op_hi, op_lo) = u16_to_be(self.operation);
        r.push(op_hi);
        r.push(op_lo);
        r.push(self.sender_hw.0);
        r.push(self.sender_hw.1);
        r.push(self.sender_hw.2);
        r.push(self.sender_hw.3);
        r.push(self.sender_hw.4);
        r.push(self.sender_hw.5);
        r.push(self.sender_proto.0);
        r.push(self.sender_proto.1);
        r.push(self.sender_proto.2);
        r.push(self.sender_proto.3);
        r.push(self.target_hw.0);
        r.push(self.target_hw.1);
        r.push(self.target_hw.2);
        r.push(self.target_hw.3);
        r.push(self.target_hw.4);
        r.push(self.target_hw.5);
        r.push(self.target_proto.0);
        r.push(self.target_proto.1);
        r.push(self.target_proto.2);
        r.push(self.target_proto.3);
        proof {
            assert(r@ =~= spec_arp_bytes(*self));
        }
        r
    }

    /// Parses a byte string as an ARP packet. Returns `None` exactly when the
    /// bytes are too short.
    pub fn parse(b: &Vec<u8>) -> (r: Option<ArpPacket>)
        ensures
            r == spec_parse_arp(b@),
            r is Some <==> b@.len() >= 28,
    {
        if b.len() < 28 {
            return None;
        }
        Some(
            ArpPacket {
                hardware_type: u16_from_be(b[0], b[1]),
                protocol_type: u16_from_be(b[2], b[3]),
                hw_addr_len: b[4],
                proto_addr_len: b[5],
                operation: u16_from_be(b[6], b[7]),
                sender_hw: MacAddr(b[8], b[9], b[10], b[11], b[12], b[13]),
                sender_proto: Ipv4Addr(b[14], b[15], b[16], b[17]),
                target_hw: MacAddr(b[18], b[19], b[20], b[21], b[22], b[23]),
                target_proto: Ipv4Addr(b[24], b[25], b[26], b[27]),
            },
        )
    }
}

/// The ARP request packet that resolution of `target_ip` emits: Ethernet
/// hardware, IPv4 protocol, a null target MAC, and the local station as the
/// sender.
pub open spec fn spec_request_packet(local_mac: MacAddr, sender_ip: Ipv4Addr, target_ip: Ipv4Addr) -> ArpPacket {
    ArpPacket {
        hardware_type: ARP_HTYPE_ETHERNET,
        protocol_type: ETHERTYPE_IPV4,
        hw_addr_len: 6,
        proto_addr_len: 4,
        operation: ARP_OP_REQUEST,
        sender_hw: local_mac,
        sender_proto: sender_ip,
        target_hw: MacAddr::null_spec(),
        target_proto: target_ip,
    }
}

/// Builds the broadcast Ethernet frame carrying an ARP request for
/// `target_ip`, sent from `local_mac` / `sender_ip`.
pub fn build_request_frame(local_mac: MacAddr, sender_ip: Ipv4Addr, target_ip: Ipv4Addr) -> (r:
    Vec<u8>)
    ensures
        r@ == spec_frame_bytes(
            MacAddr::broadcast_spec(),
            local_mac,
            ETHERTYPE_ARP,
            spec_arp_bytes(spec_request_packet(local_mac, sender_ip, target_ip)),
        ),
{
    let packet = ArpPacket {
        hardware_type: ARP_HTYPE_ETHERNET,
        protocol_type: ETHERTYPE_IPV4,
        hw_addr_len: 6,
        proto_addr_len: 4,
        operation: ARP_OP_REQUEST,
        sender_hw: local_mac,
        sender_proto: sender_ip,
        target_hw: MacAddr::null(),
        target_proto: target_ip,
    };
    let ethernet = EthernetTx::new(local_mac, MacAddr::broadcast());
    let payload = packet.to_bytes();
    ethernet.send(ETHERTYPE_ARP, &payload)
}

} // verus!
