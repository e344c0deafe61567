//! The IPv4 egress and ingress paths: the 20-byte option-less header with
//! its one's-complement checksum, next-hop selection against the configured
//! subnet, and demultiplexing of received packets by destination address and
//! next-level protocol.

use vstd::prelude::*;
use crate::addr::{Ipv4Addr, MacAddr};
use crate::arp_table::{spec_register, ArpTable};
use crate::bytes::{be16, be16_hi, be16_lo, u16_from_be, u16_to_be};
use crate::checksum::{checksum_of, checksum_valid, internet_checksum};
use crate::ethernet::{spec_frame_bytes, EthernetTx, ETHERTYPE_IPV4};
use crate::ethernet_rx::EthernetListener;
use crate::ethernet::EthernetFrame;
use crate::arp_packet::{spec_arp_bytes, spec_request_packet, build_request_frame};
use crate::net::Ipv4Config;
use crate::{RxError, RxResult};

verus! {

/// Wire size of an option-less IPv4 header.
pub const IPV4_HEADER_SIZE: usize = 20;

/// The largest payload a single IPv4 packet can carry: the total length
/// field is 16 bits and includes the 20 header bytes.
pub const IPV4_MAX_PAYLOAD: usize = 0xFFFF - 20;

/// A parsed option-less IPv4 header.
#[derive(Clone, Copy, PartialEq, Eq, Structural, Debug)]
pub struct Ipv4Header {
    pub version: u8,
    pub ihl: u8,
    pub dscp: u8,
    pub ecn: u8,
    pub total_length: u16,
    pub identification: u16,
    pub flags: u8,
    pub fragment_offset: u16,
    pub ttl: u8,
    pub protocol: u8,
    pub checksum: u16,
    pub source: Ipv4Addr,
    pub destination: Ipv4Addr,
}

impl Ipv4Header {
    /// Each field fits its wire width.
    pub open spec fn wf(self) -> bool {
        &&& self.version < 16
        &&& self.ihl < 16
        &&& self.dscp < 64
        &&& self.ecn < 4
        &&& self.flags < 8
        &&& self.fragment_offset < 8192
    }
}

/// The wire form of an option-less IPv4 header.
pub open spec fn spec_ipv4_header_bytes(h: Ipv4Header) -> Seq<u8> {
    seq![
        (h.version * 16 + h.ihl) as u8,
        (h.dscp * 4 + h.ecn) as u8,
        be16_hi(h.total_length),
        be16_lo(h.total_length),
        be16_hi(h.identification),
        be16_lo(h.identification),
        (h.flags * 32 + h.fragment_offset / 256) as u8,
        (h.fragment_offset % 256) as u8,
        h.ttl,
        h.protocol,
        be16_hi(h.checksum),
        be16_lo(h.checksum),
        h.source.0,
        h.source.1,
        h.source.2,
        h.source.3,
        h.destination.0,
        h.destination.1,
        h.destination.2,
        h.destination.3,
    ]
}

/// What parsing the first 20 bytes as an IPv4 header yields.
pub open spec fn spec_parse_ipv4_header(b: Seq<u8>) -> Option<Ipv4Header> {
    if b.len() >= 20 {
        Some(
            Ipv4Header {
                version: b[0] / 16,
                ihl: b[0] % 16,
                dscp: b[1] / 4,
                ecn: b[1] % 4,
                total_length: be16(b[2], b[3]),
                identification: be16(b[4], b[5]),
                flags: b[6] / 32,
                fragment_offset: ((b[6] % 32) * 256 + b[7]) as u16,
                ttl: b[8],
                protocol: b[9],
                checksum: be16(b[10], b[11]),
                source: Ipv4Addr(b[12], b[13], b[14], b[15]),
                destination: Ipv4Addr(b[16], b[17], b[18], b[19]),
            },
        )
    } else {
        None
    }
}

/// Any well-formed header survives a serialize-then-parse round trip
/// unchanged.
pub proof fn lemma_ipv4_header_round_trip(h: Ipv4Header)
    requires
        h.wf(),
    ensures
        spec_parse_ipv4_header(spec_ipv4_header_bytes(h)) == Some(h),
{
    crate::bytes::lemma_be16_split_join(h.total_length);
    crate::bytes::lemma_be16_split_join(h.identification);
    crate::bytes::lemma_be16_split_join(h.checksum);
    let b0 = (h.version * 16 + h.ihl) as u8;
    assert(b0 / 16 == h.version && b0 % 16 == h.ihl);
    let b1 = (h.dscp * 4 + h.ecn) as u8;
    assert(b1 / 4 == h.dscp && b1 % 4 == h.ecn);
    let b6 = (h.flags * 32 + h.fragment_offset / 256) as u8;
    let b7 = (h.fragment_offset % 256) as u8;
    assert(b6 / 32 == h.flags && b6 % 32 == h.fragment_offset / 256);
    assert(((b6 % 32) * 256 + b7) as u16 == h.fragment_offset);
}

/// Serializes an option-less IPv4 header.
pub fn serialize_ipv4_header(h: &Ipv4Header) -> (r: Vec<u8>)
    requires
        h.wf(),
    ensures
        r@ == spec_ipv4_header_bytes(*h),
        r@.len() == 20,
{
    let mut r: Vec<u8> = Vec::new();
    r.push(h.version * 16 + h.ihl);
    r.push(h.dscp * 4 + h.ecn);
    let (tl_hi, tl_lo) = u16_to_be(h.total_length);
    r.push(tl_hi);
    r.push(tl_lo);
    let (id_hi, id_lo) = u16_to_be(h.identification);
    r.push(id_hi);
    r.push(id_lo);
    r.push(h.flags * 32 + (h.fragment_offset / 256) as u8);
    r.push((h.fragment_offset % 256) as u8);
    r.push(h.ttl);
    r.push(h.protocol);
    let (ck_hi, ck_lo) = u16_to_be(h.checksum);
    r.push(ck_hi);
    r.push(ck_lo);
    r.push(h.source.0);
    r.push(h.source.1);
    r.push(h.source.2);
    r.push(h.source.3);
    r.push(h.destination.0);
    r.push(h.destination.1);
    r.push(h.destination.2);
    r.push(h.destination.3);
    proof {
        assert(r@ =~= spec_ipv4_header_bytes(*h));
    }
    r
}

/// Parses the first 20 bytes as an IPv4 header. Returns `None` exactly when
/// the bytes are too short.
pub fn parse_ipv4_header(b: &Vec<u8>) -> (r: Option<Ipv4Header>)
    ensures
        r == spec_parse_ipv4_header(b@),
        r is Some <==> b@.len() >= 20,
        r matches Some(h) ==> h.wf(),
{
    if b.len() < 20 {
        return None;
    }
    Some(
        Ipv4Header {
            version: b[0] / 16,
            ihl: b[0] % 16,
            dscp: b[1] / 4,
            ecn: b[1] % 4,
            total_length: u16_from_be(b[2], b[3]),
            identification: u16_from_be(b[4], b[5]),
            flags: b[6] / 32,
            fragment_offset: (b[6] % 32) as u16 * 256 + b[7] as u16,
            ttl: b[8],
            protocol: b[9],
            checksum: u16_from_be(b[10], b[11]),
            source: Ipv4Addr(b[12], b[13], b[14], b[15]),
            destination: Ipv4Addr(b[16], b[17], b[18], b[19]),
        },
    )
}

/// The header this stack emits, before its checksum is filled in: version 4,
/// no options, no fragmentation (DF set, identification zero), TTL 40.
pub open spec fn spec_egress_header(
    src: Ipv4Addr,
    dst: Ipv4Addr,
    protocol: u8,
    payload_len: int,
) -> Ipv4Header {
    Ipv4Header {
        version: 4,
        ihl: 5,
        dscp: 0,
        ecn: 0,
        total_length: (20 + payload_len) as u16,
        identification: 0,
        flags: 2,
        fragment_offset: 0,
        ttl: 40,
        protocol,
        checksum: 0,
        source: src,
        destination: dst,
    }
}

/// The emitted header with its checksum filled in.
pub open spec fn spec_egress_header_checksummed(
    src: Ipv4Addr,
    dst: Ipv4Addr,
    protocol: u8,
    payload_len: int,
) -> Ipv4Header {
    Ipv4Header {
        checksum: checksum_of(
            spec_ipv4_header_bytes(spec_egress_header(src, dst, protocol, payload_len)),
        ),
        ..spec_egress_header(src, dst, protocol, payload_len)
    }
}

/// The full IPv4 packet this stack emits: the checksummed header, then the
/// payload.
pub open spec fn spec_egress_packet_bytes(
    src: Ipv4Addr,
    dst: Ipv4Addr,
    protocol: u8,
    payload: Seq<u8>,
) -> Seq<u8> {
    spec_ipv4_header_bytes(spec_egress_header_checksummed(src, dst, protocol, payload.len() as int))
        + payload
}

/// Law: the emitted header carries version 4, IHL 5, the DF flag, TTL 40 and
/// identification zero, and its bytes pass the standard checksum validation.
pub proof fn lemma_egress_header_valid(src: Ipv4Addr, dst: Ipv4Addr, protocol: u8, payload_len: int)
    requires
        0 <= payload_len <= 0xFFFF - 20,
    ensures
        ({
            let h = spec_egress_header_checksummed(src, dst, protocol, payload_len);
            &&& h.version == 4
            &&& h.ihl == 5
            &&& h.flags == 2
            &&& h.ttl == 40
            &&& h.identification == 0
            &&& h.total_length == 20 + payload_len
            &&& h.wf()
            &&& checksum_valid(spec_ipv4_header_bytes(h))
        }),
{
    let h0 = spec_egress_header(src, dst, protocol, payload_len);
    let h = spec_egress_header_checksummed(src, dst, protocol, payload_len);
    let b = spec_ipv4_header_bytes(h0);
    let b2 = spec_ipv4_header_bytes(h);
    assert(b[10] == 0 && b[11] == 0);
    assert(b2[10] == (checksum_of(b) / 256) as u8);
    assert(b2[11] == (checksum_of(b) % 256) as u8);
    assert forall|j: int| 0 <= j < b.len() && j != 10 && j != 11 implies b2[j] == b[j] by {}
    crate::checksum::lemma_patched_checksum_validates(b, b2, 5);
}

/// Builds the IPv4 packet for `payload` from `src` to `dst`: the fixed
/// egress header with the protocol from the caller, checksummed last.
pub fn build_ipv4_packet(
    src: Ipv4Addr,
    dst: Ipv4Addr,
    protocol: u8,
    payload: &Vec<u8>,
) -> (r: Vec<u8>)
    requires
        payload@.len() <= 0xFFFF - 20,
    ensures
        r@ == spec_egress_packet_bytes(src, dst, protocol, payload@),
        r@.len() == 20 + payload@.len(),
        checksum_valid(r@.subrange(0, 20)),
{
    let ghost len = payload@.len() as int;
    let total_length: u16 = 20 + payload.len() as u16;
    let h0 = Ipv4Header {
        version: 4,
        ihl: 5,
        dscp: 0,
        ecn: 0,
        total_length,
        identification: 0,
        flags: 2,
        fragment_offset: 0,
        ttl: 40,
        protocol,
        checksum: 0,
        source: src,
        destination: dst,
    };
    proof {
        assert(h0 == spec_egress_header(src, dst, protocol, len));
    }
    let header0 = serialize_ipv4_header(&h0);
    let c = internet_checksum(&header0);
    let h1 = Ipv4Header { checksum: c, ..h0 };
    proof {
        assert(h1 == spec_egress_header_checksummed(src, dst, protocol, len));
        lemma_egress_header_valid(src, dst, protocol, len);
    }
    let mut r = serialize_ipv4_header(&h1);
    let mut i: usize = 0;
    while i < payload.len()
        invariant
            0 <= i <= payload@.len(),
            r@ =~= spec_ipv4_header_bytes(h1) + payload@.subrange(0, i as int),
            h1 == spec_egress_header_checksummed(src, dst, protocol, payload@.len() as int),
        decreases payload@.len() - i,
    {
        r.push(payload[i]);
        i = i + 1;
        proof {
            assert(payload@.subrange(0, i as int) =~= payload@.subrange(0, i - 1).push(
                payload@[i - 1],
            ));
        }
    }
    proof {
        assert(payload@.subrange(0, payload@.len() as int) =~= payload@);
        assert(r@.subrange(0, 20) =~= spec_ipv4_header_bytes(h1));
    }
    r
}

/// The next hop for `dst` under `cfg`: `dst` itself inside the local subnet,
/// the gateway outside it.
pub open spec fn spec_next_hop(cfg: Ipv4Config, dst: Ipv4Addr) -> Ipv4Addr {
    if cfg.net.contains_spec(dst) {
        dst
    } else {
        cfg.gw
    }
}

/// What one egress step produced.
pub enum SendOutcome {
    /// The Ethernet frame, ready for the link.
    Frame(Vec<u8>),
    /// The next hop is unresolved: a waiter was parked on it, and the
    /// broadcast ARP request frame must go out; retry once notified.
    AwaitArp { waiter: u64, request: Vec<u8> },
}

/// One IPv4 interface: its configuration and its frame builder.
pub struct Ipv4 {
    /// Configuration of this interface.
    pub config: Ipv4Config,
    pub ethernet: EthernetTx,
}

impl Ipv4 {
    /// The interface invariant: a well-formed configuration.
    pub open spec fn wf(self) -> bool {
        self.config.wf()
    }

    /// Builds an interface over the given frame builder and configuration.
    pub fn new(ethernet: EthernetTx, config: Ipv4Config) -> (r: Ipv4)
        requires
            config.wf(),
        ensures
            r.wf(),
            r.config == config,
            r.ethernet == ethernet,
    {
        Ipv4 { config, ethernet }
    }

    /// The next hop for `dst`: `dst` inside the local subnet, else the
    /// gateway.
    pub fn next_hop(&self, dst: Ipv4Addr) -> (r: Ipv4Addr)
        requires
            self.wf(),
        ensures
            r == spec_next_hop(self.config, dst),
    {
        if self.config.net.contains(dst) {
            dst
        } else {
            self.config.gw
        }
    }

    /// One egress step for an IPv4 packet towards `dst_ip`.
    ///
    /// When the next hop's MAC is in the table, the finished Ethernet frame
    /// comes back: its destination MAC is the table's binding for the next
    /// hop, and it carries the checksummed egress header and the payload.
    /// Otherwise a waiter is parked on the next hop and the broadcast ARP
    /// request to emit comes back; the caller retries after the waiter is
    /// notified.
    pub fn send(
        &self,
        table: &mut ArpTable,
        dst_ip: Ipv4Addr,
        protocol: u8,
        payload: &Vec<u8>,
    ) -> (r: SendOutcome)
        requires
            self.wf(),
            old(table).data.wf(),
            old(table).data.next_waiter < u64::MAX,
            payload@.len() <= 0xFFFF - 20,
        ensures
            final(table).data.wf(),
            ({
                let nh = spec_next_hop(self.config, dst_ip);
                match r {
                    SendOutcome::Frame(f) => {
                        &&& old(table).data@.resolved(nh) is Some
                        &&& *final(table) == *old(table)
                        &&& f@ == spec_frame_bytes(
                            old(table).data@.resolved(nh)->Some_0,
                            self.ethernet.src,
                            ETHERTYPE_IPV4,
                            spec_egress_packet_bytes(self.config.ip, dst_ip, protocol, payload@),
                        )
                    },
                    SendOutcome::AwaitArp { waiter, request } => {
                        &&& old(table).data@.resolved(nh) is None
                        &&& waiter == old(table).data@.next_waiter
                        &&& final(table).data@ == spec_register(old(table).data@, nh)
                        &&& request@ == spec_frame_bytes(
                            MacAddr::broadcast_spec(),
                            self.ethernet.src,
                            crate::ethernet::ETHERTYPE_ARP,
                            spec_arp_bytes(
                                spec_request_packet(self.ethernet.src, self.config.ip, nh),
                            ),
                        )
                    },
                }
            }),
    {
        let nh = self.next_hop(dst_ip);
        match table.get(nh) {
            Ok(mac) => {
                let packet = build_ipv4_packet(self.config.ip, dst_ip, protocol, payload);
                let frame = EthernetTx::new(self.ethernet.src, mac).send(ETHERTYPE_IPV4, &packet);
                SendOutcome::Frame(frame)
            },
            Err(waiter) => {
                let request = build_request_frame(self.ethernet.src, self.config.ip, nh);
                SendOutcome::AwaitArp { waiter, request }
            },
        }
    }
}

/// A consumer of IPv4 packets delivered by the demultiplexer.
pub trait Ipv4Listener {
    /// Delivers one parsed packet with its receive timestamp (in
    /// milliseconds).
    fn recv(&mut self, time: u64, packet: Ipv4Packet);
}

/// A parsed IPv4 packet: the header and everything after it.
pub struct Ipv4Packet {
    pub header: Ipv4Header,
    pub payload: Vec<u8>,
}

/// Parses a byte string as a full IPv4 packet: the header from the first 20
/// bytes and, as the payload, exactly the bytes after them. Returns `None`
/// exactly when the bytes are too short.
pub fn parse_ipv4_packet(b: &Vec<u8>) -> (r: Option<Ipv4Packet>)
    ensures
        match r {
            Some(p) => {
                &&& spec_parse_ipv4_header(b@) == Some(p.header)
                &&& p.header.wf()
                &&& p.payload@ == b@.subrange(20, b@.len() as int)
            },
            None => b@.len() < 20,
        },
        r is Some <==> b@.len() >= 20,
{
    let header = match parse_ipv4_header(b) {
        Some(h) => h,
        None => {
            return None;
        },
    };
    let mut payload: Vec<u8> = Vec::new();
    let mut j: usize = 20;
    while j < b.len()
        invariant
            20 <= j <= b@.len(),
            payload@ =~= b@.subrange(20, j as int),
        decreases b@.len() - j,
    {
        payload.push(b[j]);
        j = j + 1;
        proof {
            assert(b@.subrange(20, j as int) =~= b@.subrange(20, j - 1).push(b@[j - 1]));
        }
    }
    Some(Ipv4Packet { header, payload })
}

/// One registered IPv4 listener: it receives the packets addressed to `ip`
/// that carry next-level protocol `protocol`.
pub struct Ipv4ListenerEntry<L> {
    pub ip: Ipv4Addr,
    pub protocol: u8,
    pub listener: L,
}

/// Whether some entry listens for `(ip, protocol)`.
pub open spec fn spec_has_listener<L>(s: Seq<Ipv4ListenerEntry<L>>, ip: Ipv4Addr, protocol: u8) -> bool {
    exists|i: int| 0 <= i < s.len() && s[i].ip == ip && s[i].protocol == protocol
}

/// The Ethernet listener for EtherType IPv4: parses each frame's payload as
/// an IPv4 packet and delivers it to the listener registered for its
/// destination address and next-level protocol. The listener set is fixed at
/// construction.
pub struct Ipv4EthernetListener<L: Ipv4Listener> {
    pub entries: Vec<Ipv4ListenerEntry<L>>,
}

impl<L: Ipv4Listener> Ipv4EthernetListener<L> {
    /// Builds the demultiplexer over a fixed listener set. The first entry
    /// matching a packet's (destination, protocol) pair receives it; a later
    /// duplicate of a pair is never selected.
    pub fn new(entries: Vec<Ipv4ListenerEntry<L>>) -> (r: Ipv4EthernetListener<L>)
        ensures
            r.entries == entries,
    {
        Ipv4EthernetListener { entries }
    }
}

impl<L: Ipv4Listener> EthernetListener for Ipv4EthernetListener<L> {
    /// This listener always declares the IPv4 EtherType.
    open spec fn ethertype_spec(&self) -> u16 {
        0x0800
    }

    fn get_ethertype(&self) -> (r: u16)
        ensures
            r == self.ethertype_spec(),
    {
        ETHERTYPE_IPV4
    }

    /// Parses the frame payload as IPv4 and delivers it — the packet that
    /// `parse_ipv4_packet` yields, header and payload bytes exact — to the
    /// matching listener: `Parse` when malformed, `NoListener` when nobody
    /// listens for the packet's (destination, protocol) pair. A dropped
    /// frame leaves the receiver untouched; a delivered one reaches only the
    /// matched listener, and the registered (address, protocol) pairs stay
    /// as they were.
    fn recv(&mut self, time: u64, frame: &EthernetFrame) -> (r: RxResult)
        ensures
            final(self).entries@.len() == old(self).entries@.len(),
            forall|k: int|
                0 <= k < old(self).entries@.len() ==> (#[trigger] final(self).entries@[k]).ip
                    == old(self).entries@[k].ip && final(self).entries@[k].protocol == old(
                    self,
                ).entries@[k].protocol,
            match r {
                Ok(_) => {
                    &&& spec_parse_ipv4_header(frame.payload@) is Some
                    &&& spec_has_listener(
                        old(self).entries@,
                        spec_parse_ipv4_header(frame.payload@)->Some_0.destination,
                        spec_parse_ipv4_header(frame.payload@)->Some_0.protocol,
                    )
                },
                Err(RxError::Parse) => spec_parse_ipv4_header(frame.payload@) is None
                    && *final(self) == *old(self),
                Err(RxError::NoListener) => {
                    &&& spec_parse_ipv4_header(frame.payload@) is Some
                    &&& !spec_has_listener(
                        old(self).entries@,
                        spec_parse_ipv4_header(frame.payload@)->Some_0.destination,
                        spec_parse_ipv4_header(frame.payload@)->Some_0.protocol,
                    )
                    &&& *final(self) == *old(self)
                },
            },
    {
        let packet = match parse_ipv4_packet(&frame.payload) {
            Some(p) => p,
            None => {
                return Err(RxError::Parse);
            },
        };
        let n = self.entries.len();
        let mut i: usize = 0;
        while i < n
            invariant
                n == self.entries@.len(),
                0 <= i <= n,
                self == old(self),
                spec_parse_ipv4_header(frame.payload@) == Some(packet.header),
                forall|k: int|
                    0 <= k < i ==> !((#[trigger] self.entries@[k]).ip == packet.header.destination
                        && self.entries@[k].protocol == packet.header.protocol),
            decreases n - i,
        {
            if self.entries[i].ip == packet.header.destination && self.entries[i].protocol
                == packet.header.protocol {
                proof {
                    assert(old(self).entries@[i as int].ip == packet.header.destination && old(
                        self,
                    ).entries@[i as int].protocol == packet.header.protocol);
                    assert(spec_has_listener(
                        old(self).entries@,
                        packet.header.destination,
                        packet.header.protocol,
                    ));
                }
                let ghost entries0 = self.entries@;
                self.entries[i].listener.recv(time, packet);
                proof {
                    assert forall|k: int| 0 <= k < old(self).entries@.len() implies (
                    #[trigger] self.entries@[k]).ip == old(self).entries@[k].ip
                        && self.entries@[k].protocol == old(self).entries@[k].protocol by {
                        if k != i {
                            assert(self.entries@[k] == entries0[k]);
                        }
                    }
                }
                return Ok(());
            }
            i = i + 1;
        }
        Err(RxError::NoListener)
    }
}

} // verus!
