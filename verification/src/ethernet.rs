//! Ethernet frames: the IEEE 802.3 layout (destination MAC, source MAC,
//! big-endian EtherType, payload), a builder for the send side, and the
//! parser used by the receive side.

use vstd::prelude::*;
use crate::addr::MacAddr;
use crate::bytes::{be16, be16_hi, be16_lo, u16_from_be, u16_to_be};

verus! {

/// EtherType of ARP payloads.
pub const ETHERTYPE_ARP: u16 = 0x0806;

/// EtherType of IPv4 payloads.
pub const ETHERTYPE_IPV4: u16 = 0x0800;

/// Bytes of the Ethernet header before the payload.
pub const ETHERNET_HEADER_SIZE: usize = 14;

/// A parsed Ethernet frame.
pub struct EthernetFrame {
    pub dst: MacAddr,
    pub src: MacAddr,
    pub ethertype: u16,
    pub payload: Vec<u8>,
}

/// The wire form of a frame: 6 destination bytes, 6 source bytes, the
/// EtherType big-endian, then the payload.
pub open spec fn spec_frame_bytes(dst: MacAddr, src: MacAddr, ethertype: u16, payload: Seq<
    u8,
>) -> Seq<u8> {
    seq![
        dst.0,
        dst.1,
        dst.2,
        dst.3,
        dst.4,
        dst.5,
        src.0,
        src.1,
        src.2,
        src.3,
        src.4,
        src.5,
        be16_hi(ethertype),
        be16_lo(ethertype),
    ] + payload
}

/// What parsing a byte string as an Ethernet frame yields: the header fields
/// and the payload, or nothing when the bytes cannot hold a header.
pub open spec fn spec_parse_frame(b: Seq<u8>) -> Option<(MacAddr, MacAddr, u16, Seq<u8>)> {
    if b.len() >= 14 {
        Some(
            (
                MacAddr(b[0], b[1], b[2], b[3], b[4], b[5]),
                MacAddr(b[6], b[7], b[8], b[9], b[10], b[11]),
                be16(b[12], b[13]),
                b.subrange(14, b.len() as int),
            ),
        )
    } else {
        None
    }
}

/// Any frame survives a serialize-then-parse round trip unchanged.
pub proof fn lemma_frame_round_trip(dst: MacAddr, src: MacAddr, ethertype: u16, payload: Seq<u8>)
    ensures
        spec_parse_frame(spec_frame_bytes(dst, src, ethertype, payload)) == Some(
            (dst, src, ethertype, payload),
        ),
{
    let b = spec_frame_bytes(dst, src, ethertype, payload);
    crate::bytes::lemma_be16_split_join(ethertype);
    assert(b.subrange(14, b.len() as int) =~= payload);
}

/// Parsing determines the bytes: a parsed frame serializes back to exactly
/// the input.
pub proof fn lemma_parse_frame_exact(b: Seq<u8>)
    requires
        b.len() >= 14,
    ensures
        spec_parse_frame(b) matches Some(f) && spec_frame_bytes(f.0, f.1, f.2, f.3) == b,
{
    let f = spec_parse_frame(b)->Some_0;
    crate::bytes::lemma_be16_join_split(b[12], b[13]);
    assert(spec_frame_bytes(f.0, f.1, f.2, f.3) =~= b);
}

impl EthernetFrame {
    /// The frame's wire form.
    pub open spec fn bytes_spec(&self) -> Seq<u8> {
        spec_frame_bytes(self.dst, self.src, self.ethertype, self.payload@)
    }

    /// Serializes the frame.
    pub fn to_bytes(&self) -> (r: Vec<u8>)
        ensures
            r@ == self.bytes_spec(),
    {
        serialize_frame(self.dst, self.src, self.ethertype, &self.payload)
    }
}

/// Serializes an Ethernet frame from its fields.
pub fn serialize_frame(dst: MacAddr, src: MacAddr, ethertype: u16, payload: &Vec<u8>) -> (r: Vec<
    u8,
>)
    ensures
        r@ == spec_frame_bytes(dst, src, ethertype, payload@),
        r@.len() == 14 + payload@.len(),
{
    let mut r: Vec<u8> = Vec::new();
    r.push(dst.0);
    r.push(dst.1);
    r.push(dst.2);
    r.push(dst.3);
    r.push(dst.4);
    r.push(dst.5);
    r.push(src.0);
    r.push(src.1);
    r.push(src.2);
    r.push(src.3);
    r.push(src.4);
    r.push(src.5);
    let (hi, lo) = u16_to_be(ethertype);
    r.push(hi);
    r.push(lo);
    let mut i: usize = 0;
    while i < payload.len()
        invariant
            0 <= i <= payload@.len(),
            r@ =~= spec_frame_bytes(dst, src, ethertype, payload@.subrange(0, i as int)),
        decreases payload@.len() - i,
    {
        r.push(payload[i]);
        i = i + 1;
        proof {
            assert(payload@.subrange(0, i as int) =~= payload@.subrange(0, i - 1).push(
                payload@[i - 1],
            ));
        }
    }
    proof {
        assert(payload@.subrange(0, payload@.len() as int) =~= payload@);
    }
    r
}

/// Parses a byte string as an Ethernet frame. Returns `None` exactly when the
/// bytes are too short to hold the 14-byte header.
pub fn parse_frame(b: &Vec<u8>) -> (r: Option<EthernetFrame>)
    ensures
        match r {
            Some(f) => spec_parse_frame(b@) == Some(
                (f.dst, f.src, f.ethertype, f.payload@),
            ),
            None => b@.len() < 14,
        },
        r is Some <==> b@.len() >= 14,
{
    if b.len() < 14 {
        return None;
    }
    let dst = MacAddr(b[0], b[1], b[2], b[3], b[4], b[5]);
    let src = MacAddr(b[6], b[7], b[8], b[9], b[10], b[11]);
    let ethertype = u16_from_be(b[12], b[13]);
    let mut payload: Vec<u8> = Vec::new();
    let mut i: usize = 14;
    while i < b.len()
        invariant
            14 <= i <= b@.len(),
            payload@ =~= b@.subrange(14, i as int),
        decreases b@.len() - i,
    {
        payload.push(b[i]);
        i = i + 1;
        proof {
            assert(b@.subrange(14, i as int) =~= b@.subrange(14, i - 1).push(b@[i - 1]));
        }
    }
    Some(EthernetFrame { dst, src, ethertype, payload })
}

/// The frame builder of the send side: emits frames whose source and
/// destination MAC are fixed at construction.
pub struct EthernetTx {
    pub src: MacAddr,
    pub dst: MacAddr,
}

impl EthernetTx {
    pub fn new(src: MacAddr, dst: MacAddr) -> (r: EthernetTx)
        ensures
            r.src == src,
            r.dst == dst,
    {
        EthernetTx { src, dst }
    }

    /// Builds one frame towards this sender's destination, with the source
    /// and destination MAC pre-filled and the given EtherType and payload.
    pub fn send(&self, ethertype: u16, payload: &Vec<u8>) -> (r: Vec<u8>)
        ensures
            r@ == spec_frame_bytes(self.dst, self.src, ethertype, payload@),
            r@.len() == 14 + payload@.len(),
    {
        serialize_frame(self.dst, self.src, ethertype, payload)
    }
}

} // verus!
