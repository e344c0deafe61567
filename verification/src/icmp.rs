//! ICMP over the IPv4 egress path: message framing with the Internet
//! checksum, an echo-request builder, and the listener for inbound ICMP
//! packets.

use vstd::prelude::*;
use crate::addr::{Ipv4Addr, MacAddr};
use crate::arp_table::{spec_register, ArpTable};
use crate::bytes::{be16_hi, be16_lo, u16_to_be};
use crate::checksum::{checksum_of, checksum_valid, internet_checksum};
use crate::ethernet::spec_frame_bytes;
use crate::arp_packet::{spec_arp_bytes, spec_request_packet};
use crate::ipv4::{spec_egress_packet_bytes, spec_next_hop, Ipv4, Ipv4Listener, Ipv4Packet, SendOutcome};

verus! {

/// The IPv4 next-level protocol number of ICMP.
pub const PROTOCOL_ICMP: u8 = 1;

/// ICMP message type of an echo request.
pub const ICMP_TYPE_ECHO_REQUEST: u8 = 8;

/// The ICMP code used when a message type has no codes.
pub const ICMP_CODE_NONE: u8 = 0;

/// An ICMP message before its checksum is computed: type, code, a zero
/// checksum, then the rest of the message.
pub open spec fn spec_icmp_zeroed_bytes(icmp_type: u8, icmp_code: u8, rest: Seq<u8>) -> Seq<u8> {
    seq![icmp_type, icmp_code, 0u8, 0u8] + rest
}

/// The emitted ICMP message: type, code, the Internet checksum over the
/// whole zero-checksum message, then the rest of the message.
pub open spec fn spec_icmp_packet_bytes(icmp_type: u8, icmp_code: u8, rest: Seq<u8>) -> Seq<u8> {
    let ck = checksum_of(spec_icmp_zeroed_bytes(icmp_type, icmp_code, rest));
    seq![icmp_type, icmp_code, be16_hi(ck), be16_lo(ck)] + rest
}

/// Law: an emitted ICMP message passes the standard checksum validation.
pub proof fn lemma_icmp_packet_validates(icmp_type: u8, icmp_code: u8, rest: Seq<u8>)
    ensures
        checksum_valid(spec_icmp_packet_bytes(icmp_type, icmp_code, rest)),
{
    let b = spec_icmp_zeroed_bytes(icmp_type, icmp_code, rest);
    let b2 = spec_icmp_packet_bytes(icmp_type, icmp_code, rest);
    let ck = checksum_of(b);
    assert(be16_hi(ck) == (ck / 256) as u8);
    assert(be16_lo(ck) == (ck % 256) as u8);
    crate::checksum::lemma_patched_checksum_validates(b, b2, 1);
}

/// Builds an ICMP message: the checksum is computed over the zero-checksum
/// message and written back into bytes 2 and 3.
pub fn build_icmp_packet(icmp_type: u8, icmp_code: u8, rest: &Vec<u8>) -> (r: Vec<u8>)
    requires
        rest@.len() + 4 <= 0xFFFF,
    ensures
        r@ == spec_icmp_packet_bytes(icmp_type, icmp_code, rest@),
        r@.len() == 4 + rest@.len(),
{
    let mut buf: Vec<u8> = Vec::new();
    buf.push(icmp_type);
    buf.push(icmp_code);
    buf.push(0);
    buf.push(0);
    let mut i: usize = 0;
    while i < rest.len()
        invariant
            0 <= i <= rest@.len(),
            buf@ =~= spec_icmp_zeroed_bytes(icmp_type, icmp_code, rest@.subrange(0, i as int)),
        decreases rest@.len() - i,
    {
        buf.push(rest[i]);
        i = i + 1;
        proof {
            assert(rest@.subrange(0, i as int) =~= rest@.subrange(0, i - 1).push(rest@[i - 1]));
        }
    }
    proof {
        assert(rest@.subrange(0, rest@.len() as int) =~= rest@);
    }
    let ck = internet_checksum(&buf);
    let (hi, lo) = u16_to_be(ck);
    buf[2] = hi;
    buf[3] = lo;
    proof {
        assert(buf@ =~= spec_icmp_packet_bytes(icmp_type, icmp_code, rest@));
    }
    buf
}

/// The listener for inbound ICMP packets. Receipt is acknowledged and the
/// packet dropped: this stack sends echoes but does not answer them.
pub struct IcmpIpv4Listener;

impl Ipv4Listener for IcmpIpv4Listener {
    fn recv(&mut self, _time: u64, _packet: Ipv4Packet) {
    }
}

/// ICMP egress over one IPv4 interface.
pub struct Icmp {
    pub ipv4: Ipv4,
}

impl Icmp {
    /// Builds the ICMP sender over an interface. Wire an `IcmpIpv4Listener`
    /// into the interface's listener set to consume inbound ICMP.
    pub fn new(ipv4: Ipv4) -> (r: Icmp)
        ensures
            r.ipv4 == ipv4,
    {
        Icmp { ipv4 }
    }

    /// One egress step for an ICMP message towards `dst_ip`: the message is
    /// framed and checksummed, then handed to the IPv4 egress path under
    /// protocol number 1.
    pub fn send(
        &self,
        table: &mut ArpTable,
        dst_ip: Ipv4Addr,
        icmp_type: u8,
        icmp_code: u8,
        rest: &Vec<u8>,
    ) -> (r: SendOutcome)
        requires
            self.ipv4.wf(),
            old(table).data.wf(),
            old(table).data.next_waiter < u64::MAX,
            rest@.len() + 4 <= 0xFFFF - 20,
        ensures
            final(table).data.wf(),
            ({
                let nh = spec_next_hop(self.ipv4.config, dst_ip);
                let icmp = spec_icmp_packet_bytes(icmp_type, icmp_code, rest@);
                match r {
                    SendOutcome::Frame(f) => {
                        &&& old(table).data@.resolved(nh) is Some
                        &&& *final(table) == *old(table)
                        &&& f@ == spec_frame_bytes(
                            old(table).data@.resolved(nh)->Some_0,
                            self.ipv4.ethernet.src,
                            crate::ethernet::ETHERTYPE_IPV4,
                            spec_egress_packet_bytes(
                                self.ipv4.config.ip,
                                dst_ip,
                                PROTOCOL_ICMP,
                                icmp,
                            ),
                        )
                    },
                    SendOutcome::AwaitArp { waiter, request } => {
                        &&& old(table).data@.resolved(nh) is None
                        &&& waiter == old(table).data@.next_waiter
                        &&& final(table).data@ == spec_register(old(table).data@, nh)
                        &&& request@ == spec_frame_bytes(
                            MacAddr::broadcast_spec(),
                            self.ipv4.ethernet.src,
                            crate::ethernet::ETHERTYPE_ARP,
                            spec_arp_bytes(
                                spec_request_packet(
                                    self.ipv4.ethernet.src,
                                    self.ipv4.config.ip,
                                    nh,
                                ),
                            ),
                        )
                    },
                }
            }),
    {
        let packet = build_icmp_packet(icmp_type, icmp_code, rest);
        self.ipv4.send(table, dst_ip, PROTOCOL_ICMP, &packet)
    }
}

/// The ICMP echo data this stack sends: identifier and sequence number
/// zero, then the caller's payload.
pub open spec fn spec_echo_data(payload: Seq<u8>) -> Seq<u8> {
    seq![0u8, 0u8, 0u8, 0u8] + payload
}

/// Echo-request egress over an ICMP sender.
pub struct Echo {
    pub icmp: Icmp,
}

impl Echo {
    /// Builds the echo sender.
    pub fn new(icmp: Icmp) -> (r: Echo)
        ensures
            r.icmp == icmp,
    {
        Echo { icmp }
    }

    /// One egress step for an echo request carrying `payload`, with
    /// identifier and sequence number zero.
    pub fn send(&self, table: &mut ArpTable, dst_ip: Ipv4Addr, payload: &Vec<u8>) -> (r:
        SendOutcome)
        requires
            self.icmp.ipv4.wf(),
            old(table).data.wf(),
            old(table).data.next_waiter < u64::MAX,
            payload@.len() + 8 <= 0xFFFF - 20,
        ensures
            final(table).data.wf(),
            ({
                let nh = spec_next_hop(self.icmp.ipv4.config, dst_ip);
                let icmp = spec_icmp_packet_bytes(
                    ICMP_TYPE_ECHO_REQUEST,
                    ICMP_CODE_NONE,
                    spec_echo_data(payload@),
                );
                match r {
                    SendOutcome::Frame(f) => {
                        &&& old(table).data@.resolved(nh) is Some
                        &&& *final(table) == *old(table)
                        &&& f@ == spec_frame_bytes(
                            old(table).data@.resolved(nh)->Some_0,
                            self.icmp.ipv4.ethernet.src,
                            crate::ethernet::ETHERTYPE_IPV4,
                            spec_egress_packet_bytes(
                                self.icmp.ipv4.config.ip,
                                dst_ip,
                                PROTOCOL_ICMP,
                                icmp,
                            ),
                        )
                    },
                    SendOutcome::AwaitArp { waiter, request } => {
                        &&& old(table).data@.resolved(nh) is None
                        &&& waiter == old(table).data@.next_waiter
                        &&& final(table).data@ == spec_register(old(table).data@, nh)
                        &&& request@ == spec_frame_bytes(
                            MacAddr::broadcast_spec(),
                            self.icmp.ipv4.ethernet.src,
                            crate::ethernet::ETHERTYPE_ARP,
                            spec_arp_bytes(
                                spec_request_packet(
                                    self.icmp.ipv4.ethernet.src,
                                    self.icmp.ipv4.config.ip,
                                    nh,
                                ),
                            ),
                        )
                    },
                }
            }),
    {
        let mut data: Vec<u8> = Vec::new();
        data.push(0);
        data.push(0);
        data.push(0);
        data.push(0);
        let mut i: usize = 0;
        while i < payload.len()
            invariant
                0 <= i <= payload@.len(),
                data@ =~= spec_echo_data(payload@.subrange(0, i as int)),
            decreases payload@.len() - i,
        {
            data.push(payload[i]);
            i = i + 1;
            proof {
                assert(payload@.subrange(0, i as int) =~= payload@.subrange(0, i - 1).push(
                    payload@[i - 1],
                ));
            }
        }
        proof {
            assert(payload@.subrange(0, payload@.len() as int) =~= payload@);
        }
        self.icmp.send(table, dst_ip, ICMP_TYPE_ECHO_REQUEST, ICMP_CODE_NONE, &data)
    }
}

} // verus!
