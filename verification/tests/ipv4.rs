use rips::addr::{Ipv4Addr, MacAddr};
use rips::arp_table::ArpTable;
use rips::checksum::internet_checksum;
use rips::ethernet::{parse_frame, serialize_frame, EthernetTx};
use rips::ethernet_rx::{EthernetListener, EthernetRx};
use rips::ipv4::{
    parse_ipv4_header, serialize_ipv4_header, Ipv4, Ipv4EthernetListener, Ipv4Header,
    Ipv4Listener, Ipv4ListenerEntry, Ipv4Packet, SendOutcome,
};
use rips::net::Ipv4Config;
use rips::RxError;

fn test_config() -> Ipv4Config {
    Ipv4Config::new(Ipv4Addr::new(10, 0, 0, 2), 24, Ipv4Addr::new(10, 0, 0, 1)).unwrap()
}

fn test_interface() -> Ipv4 {
    let local_mac = MacAddr::new(1, 2, 3, 4, 5, 6);
    let ethernet = EthernetTx::new(local_mac, MacAddr::broadcast());
    Ipv4::new(ethernet, test_config())
}

/// Checks the stored checksum against a recomputation over the header with
/// its checksum field zeroed, and folds all header words to 0xFFFF.
fn assert_header_checksum_valid(header_bytes: &[u8]) {
    let mut zeroed = header_bytes.to_vec();
    zeroed[10] = 0;
    zeroed[11] = 0;
    let expected = internet_checksum(&zeroed);
    let stored = (header_bytes[10] as u16) * 256 + header_bytes[11] as u16;
    assert_eq!(stored, expected);

    let mut sum: u32 = 0;
    let mut i = 0;
    while i + 1 < header_bytes.len() {
        sum += (header_bytes[i] as u32) * 256 + header_bytes[i + 1] as u32;
        i += 2;
    }
    while sum > 0xFFFF {
        sum = (sum & 0xFFFF) + (sum >> 16);
    }
    assert_eq!(sum, 0xFFFF);
}

#[test]
fn test_ipv4_send_local() {
    // A destination inside the subnet is its own next hop: the frame goes
    // to that host's MAC with the fixed egress header.
    let ipv4 = test_interface();
    let mut table = ArpTable::new();
    let dst_mac = MacAddr::new(0x0A, 0x0B, 0x0C, 0x0D, 0x0E, 0x0F);
    table.insert(Ipv4Addr::new(10, 0, 0, 9), dst_mac);

    let payload = vec![0xDE, 0xAD, 0xBE, 0xEF];
    let frame = match ipv4.send(&mut table, Ipv4Addr::new(10, 0, 0, 9), 17, &payload) {
        SendOutcome::Frame(f) => f,
        SendOutcome::AwaitArp { .. } => panic!("next hop was resolved"),
    };

    let eth = parse_frame(&frame).unwrap();
    assert_eq!(eth.dst, dst_mac);
    assert_eq!(eth.src, MacAddr::new(1, 2, 3, 4, 5, 6));
    assert_eq!(eth.ethertype, 0x0800);

    let header = parse_ipv4_header(&eth.payload).unwrap();
    assert_eq!(header.version, 4);
    assert_eq!(header.ihl, 5);
    assert_eq!(header.total_length, 24);
    assert_eq!(header.identification, 0);
    assert_eq!(header.flags, 2);
    assert_eq!(header.fragment_offset, 0);
    assert_eq!(header.ttl, 40);
    assert_eq!(header.protocol, 17);
    assert_eq!(header.source, Ipv4Addr::new(10, 0, 0, 2));
    assert_eq!(header.destination, Ipv4Addr::new(10, 0, 0, 9));
    assert_header_checksum_valid(&eth.payload[..20]);
    assert_eq!(&eth.payload[20..], &[0xDE, 0xAD, 0xBE, 0xEF]);
}

#[test]
fn test_ipv4_send_gateway() {
    // A destination outside the subnet goes to the gateway's MAC while the
    // IPv4 destination stays the final one.
    let ipv4 = test_interface();
    let mut table = ArpTable::new();
    let gw_mac = MacAddr::new(1, 1, 1, 1, 1, 1);
    table.insert(Ipv4Addr::new(10, 0, 0, 1), gw_mac);

    let frame = match ipv4.send(&mut table, Ipv4Addr::new(8, 8, 8, 8), 17, &vec![]) {
        SendOutcome::Frame(f) => f,
        SendOutcome::AwaitArp { .. } => panic!("gateway was resolved"),
    };

    let eth = parse_frame(&frame).unwrap();
    assert_eq!(eth.dst, gw_mac);
    let header = parse_ipv4_header(&eth.payload).unwrap();
    assert_eq!(header.destination, Ipv4Addr::new(8, 8, 8, 8));
    assert_eq!(header.total_length, 20);
}

#[test]
fn test_ipv4_send_unresolved_emits_request() {
    // An unresolved next hop parks a waiter and hands back the broadcast
    // ARP request to emit.
    let ipv4 = test_interface();
    let mut table = ArpTable::new();
    let (waiter, request) = match ipv4.send(&mut table, Ipv4Addr::new(10, 0, 0, 5), 17, &vec![1]) {
        SendOutcome::AwaitArp { waiter, request } => (waiter, request),
        SendOutcome::Frame(_) => panic!("nothing was resolved"),
    };
    assert_eq!(waiter, 0);
    let eth = parse_frame(&request).unwrap();
    assert_eq!(eth.dst, MacAddr::broadcast());
    assert_eq!(eth.ethertype, 0x0806);
    // The reply then satisfies the parked waiter.
    let drained = table.insert(Ipv4Addr::new(10, 0, 0, 5), MacAddr::new(2, 2, 2, 2, 2, 2));
    assert_eq!(drained, vec![waiter]);
}

#[test]
fn test_ipv4_header_round_trip() {
    let header = Ipv4Header {
        version: 4,
        ihl: 5,
        dscp: 21,
        ecn: 3,
        total_length: 1234,
        identification: 0xBEEF,
        flags: 2,
        fragment_offset: 8000,
        ttl: 64,
        protocol: 6,
        checksum: 0xCAFE,
        source: Ipv4Addr::new(192, 168, 0, 1),
        destination: Ipv4Addr::new(192, 168, 0, 199),
    };
    let bytes = serialize_ipv4_header(&header);
    assert_eq!(bytes.len(), 20);
    assert_eq!(parse_ipv4_header(&bytes), Some(header));
}

#[test]
fn test_internet_checksum_odd_length() {
    // An odd trailing byte counts as the high byte of a final padded word.
    assert_eq!(internet_checksum(&vec![0x01]), 0xFEFF);
    assert_eq!(internet_checksum(&vec![0xAB, 0xCD, 0xEF]), 0x6531);
}

#[test]
fn test_internet_checksum_known_value() {
    // A classic sample header with the checksum field zeroed.
    let header = vec![
        0x45, 0x00, 0x00, 0x73, 0x00, 0x00, 0x40, 0x00, 0x40, 0x11, 0x00, 0x00, 0xC0, 0xA8,
        0x00, 0x01, 0xC0, 0xA8, 0x00, 0xC7,
    ];
    assert_eq!(internet_checksum(&header), 0xB861);
}

struct MockIpv4Listener {
    received: Vec<(u64, Ipv4Header, Vec<u8>)>,
}

impl Ipv4Listener for MockIpv4Listener {
    fn recv(&mut self, time: u64, packet: Ipv4Packet) {
        self.received.push((time, packet.header, packet.payload));
    }
}

fn ipv4_frame_to(dst: Ipv4Addr, protocol: u8, payload: &[u8]) -> Vec<u8> {
    let header = Ipv4Header {
        version: 4,
        ihl: 5,
        dscp: 0,
        ecn: 0,
        total_length: 20 + payload.len() as u16,
        identification: 0,
        flags: 2,
        fragment_offset: 0,
        ttl: 40,
        protocol,
        checksum: 0,
        source: Ipv4Addr::new(10, 0, 0, 77),
        destination: dst,
    };
    let mut packet = serialize_ipv4_header(&header);
    packet.extend_from_slice(payload);
    serialize_frame(
        MacAddr::new(1, 2, 3, 4, 5, 6),
        MacAddr::new(9, 9, 9, 9, 9, 9),
        0x0800,
        &packet,
    )
}

#[test]
fn test_ipv4_demux_delivers() {
    let listener = MockIpv4Listener { received: Vec::new() };
    let entry = Ipv4ListenerEntry { ip: Ipv4Addr::new(10, 0, 0, 2), protocol: 17, listener };
    let mut demux = Ipv4EthernetListener::new(vec![entry]);
    assert_eq!(demux.get_ethertype(), 0x0800);

    let frame_bytes = ipv4_frame_to(Ipv4Addr::new(10, 0, 0, 2), 17, &[7, 8, 9]);
    let frame = parse_frame(&frame_bytes).unwrap();
    let r = demux.recv(123, &frame);
    assert!(r.is_ok());
    assert_eq!(demux.entries[0].listener.received.len(), 1);
    let (time, header, payload) = &demux.entries[0].listener.received[0];
    assert_eq!(*time, 123);
    assert_eq!(header.destination, Ipv4Addr::new(10, 0, 0, 2));
    assert_eq!(header.protocol, 17);
    assert_eq!(payload, &vec![7, 8, 9]);
}

#[test]
fn test_ipv4_demux_no_listener() {
    let listener = MockIpv4Listener { received: Vec::new() };
    let entry = Ipv4ListenerEntry { ip: Ipv4Addr::new(10, 0, 0, 2), protocol: 17, listener };
    let mut demux = Ipv4EthernetListener::new(vec![entry]);

    // Right address, wrong protocol.
    let frame_bytes = ipv4_frame_to(Ipv4Addr::new(10, 0, 0, 2), 6, &[]);
    let frame = parse_frame(&frame_bytes).unwrap();
    assert_eq!(demux.recv(0, &frame), Err(RxError::NoListener));

    // Wrong address.
    let frame_bytes = ipv4_frame_to(Ipv4Addr::new(10, 0, 0, 3), 17, &[]);
    let frame = parse_frame(&frame_bytes).unwrap();
    assert_eq!(demux.recv(0, &frame), Err(RxError::NoListener));

    assert_eq!(demux.entries[0].listener.received.len(), 0);
}

#[test]
fn test_ipv4_demux_parse_error() {
    let listener = MockIpv4Listener { received: Vec::new() };
    let entry = Ipv4ListenerEntry { ip: Ipv4Addr::new(10, 0, 0, 2), protocol: 17, listener };
    let mut demux = Ipv4EthernetListener::new(vec![entry]);

    let frame_bytes = serialize_frame(
        MacAddr::new(1, 2, 3, 4, 5, 6),
        MacAddr::new(9, 9, 9, 9, 9, 9),
        0x0800,
        &vec![1, 2, 3],
    );
    let frame = parse_frame(&frame_bytes).unwrap();
    assert_eq!(demux.recv(0, &frame), Err(RxError::Parse));
}

#[test]
fn test_full_ingress_observes_fields() {
    // A frame serialized from known fields, taken in through the Ethernet
    // receiver and the IPv4 demultiplexer: the registered listener observes
    // exactly the serialized header fields and payload bytes.
    let listener = MockIpv4Listener { received: Vec::new() };
    let entry = Ipv4ListenerEntry { ip: Ipv4Addr::new(10, 0, 0, 2), protocol: 17, listener };
    let demux = Ipv4EthernetListener::new(vec![entry]);
    let mut rx = EthernetRx::new(vec![demux]);

    let frame_bytes = ipv4_frame_to(Ipv4Addr::new(10, 0, 0, 2), 17, &[0xCA, 0xFE, 0x42]);
    assert!(rx.recv(55, &frame_bytes).is_ok());

    let received = &rx.groups[0].members[0].entries[0].listener.received;
    assert_eq!(received.len(), 1);
    let (time, header, payload) = &received[0];
    assert_eq!(*time, 55);
    assert_eq!(header.source, Ipv4Addr::new(10, 0, 0, 77));
    assert_eq!(header.destination, Ipv4Addr::new(10, 0, 0, 2));
    assert_eq!(header.protocol, 17);
    assert_eq!(header.total_length, 23);
    assert_eq!(payload, &vec![0xCA, 0xFE, 0x42]);
}
