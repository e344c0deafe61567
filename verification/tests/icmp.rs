use rips::addr::{Ipv4Addr, MacAddr};
use rips::arp_table::ArpTable;
use rips::checksum::internet_checksum;
use rips::ethernet::{parse_frame, EthernetTx};
use rips::icmp::{build_icmp_packet, Echo, Icmp};
use rips::ipv4::{parse_ipv4_header, Ipv4, SendOutcome};
use rips::net::Ipv4Config;

fn echo_sender() -> Echo {
    let config =
        Ipv4Config::new(Ipv4Addr::new(10, 0, 0, 2), 24, Ipv4Addr::new(10, 0, 0, 1)).unwrap();
    let ethernet = EthernetTx::new(MacAddr::new(1, 2, 3, 4, 5, 6), MacAddr::broadcast());
    Echo::new(Icmp::new(Ipv4::new(ethernet, config)))
}

fn assert_icmp_checksum_valid(icmp: &[u8]) {
    let mut zeroed = icmp.to_vec();
    zeroed[2] = 0;
    zeroed[3] = 0;
    let expected = internet_checksum(&zeroed);
    let stored = (icmp[2] as u16) * 256 + icmp[3] as u16;
    assert_eq!(stored, expected);
}

#[test]
fn test_icmp_packet_framing() {
    let packet = build_icmp_packet(8, 0, &vec![0, 0, 0, 0, 0x61, 0x62]);
    assert_eq!(packet.len(), 10);
    assert_eq!(packet[0], 8);
    assert_eq!(packet[1], 0);
    assert_icmp_checksum_valid(&packet);
    assert_eq!(&packet[4..], &[0, 0, 0, 0, 0x61, 0x62]);
}

#[test]
fn test_icmp_checksum_known_value() {
    // Echo request, type 8 code 0, identifier and sequence zero, no data:
    // the sum is 0x0800, so the checksum is its complement.
    let packet = build_icmp_packet(8, 0, &vec![0, 0, 0, 0]);
    assert_eq!((packet[2], packet[3]), (0xF7, 0xFF));
}

#[test]
fn test_echo_send_frame() {
    let echo = echo_sender();
    let mut table = ArpTable::new();
    let dst = Ipv4Addr::new(10, 0, 0, 9);
    let dst_mac = MacAddr::new(0x0A, 0x0B, 0x0C, 0x0D, 0x0E, 0x0F);
    table.insert(dst, dst_mac);

    let frame = match echo.send(&mut table, dst, &vec![0x70, 0x71]) {
        SendOutcome::Frame(f) => f,
        SendOutcome::AwaitArp { .. } => panic!("destination was resolved"),
    };

    let eth = parse_frame(&frame).unwrap();
    assert_eq!(eth.dst, dst_mac);
    assert_eq!(eth.ethertype, 0x0800);
    let header = parse_ipv4_header(&eth.payload).unwrap();
    assert_eq!(header.protocol, 1);
    assert_eq!(header.ttl, 40);
    // ICMP message: echo request, zero identifier and sequence, the data.
    let icmp = &eth.payload[20..];
    assert_eq!(icmp.len(), 10);
    assert_eq!(icmp[0], 8);
    assert_eq!(icmp[1], 0);
    assert_icmp_checksum_valid(icmp);
    assert_eq!(&icmp[4..8], &[0, 0, 0, 0]);
    assert_eq!(&icmp[8..], &[0x70, 0x71]);
}

#[test]
fn test_echo_unresolved_awaits_arp() {
    let echo = echo_sender();
    let mut table = ArpTable::new();
    let r = echo.send(&mut table, Ipv4Addr::new(10, 0, 0, 9), &vec![]);
    match r {
        SendOutcome::AwaitArp { request, .. } => {
            let eth = parse_frame(&request).unwrap();
            assert_eq!(eth.ethertype, 0x0806);
            assert_eq!(eth.dst, MacAddr::broadcast());
        },
        SendOutcome::Frame(_) => panic!("nothing was resolved"),
    }
}
