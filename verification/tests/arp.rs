use rips::addr::{Ipv4Addr, MacAddr};
use rips::arp_packet::{build_request_frame, ArpPacket};
use rips::arp_table::{process_arp_frame, ArpTable, TableData};
use rips::ethernet::parse_frame;
use rips::versioned::VersionedTx;
use rips::RxError;

fn reply_payload(sender_ip: Ipv4Addr, sender_mac: MacAddr) -> Vec<u8> {
    let reply = ArpPacket {
        hardware_type: 1,
        protocol_type: 0x0800,
        hw_addr_len: 6,
        proto_addr_len: 4,
        operation: 2,
        sender_hw: sender_mac,
        sender_proto: sender_ip,
        target_hw: MacAddr::new(1, 2, 3, 4, 5, 6),
        target_proto: Ipv4Addr::new(10, 0, 0, 2),
    };
    reply.to_bytes()
}

#[test]
fn test_arp_request_frame() {
    // The resolver emits a broadcast request naming the local station as
    // sender and the null MAC as the unknown target.
    let local_mac = MacAddr::new(1, 2, 3, 4, 5, 6);
    let frame = build_request_frame(local_mac, Ipv4Addr::new(10, 0, 0, 2), Ipv4Addr::new(10, 0, 0, 5));
    let eth = parse_frame(&frame).unwrap();
    assert_eq!(eth.dst, MacAddr::broadcast());
    assert_eq!(eth.src, local_mac);
    assert_eq!(eth.ethertype, 0x0806);
    let arp = ArpPacket::parse(&eth.payload).unwrap();
    assert_eq!(arp.hardware_type, 1);
    assert_eq!(arp.protocol_type, 0x0800);
    assert_eq!(arp.hw_addr_len, 6);
    assert_eq!(arp.proto_addr_len, 4);
    assert_eq!(arp.operation, 1);
    assert_eq!(arp.sender_hw, local_mac);
    assert_eq!(arp.sender_proto, Ipv4Addr::new(10, 0, 0, 2));
    assert_eq!(arp.target_hw, MacAddr::null());
    assert_eq!(arp.target_proto, Ipv4Addr::new(10, 0, 0, 5));
}

#[test]
fn test_arp_resolve_reply() {
    // An unresolved query parks a waiter; the reply resolves the binding
    // and hands that waiter back for notification.
    let mut table = ArpTable::new();
    let mut vtx = VersionedTx::new();
    let target = Ipv4Addr::new(10, 0, 0, 5);
    let mac = MacAddr::new(0xAA, 0xBB, 0xCC, 0xDD, 0xEE, 0xFF);

    let waiter = match table.get(target) {
        Err(w) => w,
        Ok(_) => panic!("nothing should be resolved yet"),
    };

    let ingress = process_arp_frame(&mut table, &mut vtx, &reply_payload(target, mac)).unwrap();
    assert_eq!(ingress.packet.sender_proto, target);
    assert_eq!(ingress.packet.sender_hw, mac);
    assert_eq!(ingress.waiters, vec![waiter]);

    assert_eq!(table.get(target), Ok(mac));
}

#[test]
fn test_version_bump_on_change() {
    // A repeated identical reply leaves the revision alone; a changed
    // binding bumps it by exactly one.
    let mut table = ArpTable::new();
    let mut vtx = VersionedTx::new();
    let target = Ipv4Addr::new(10, 0, 0, 5);
    let mac1 = MacAddr::new(0xAA, 0xBB, 0xCC, 0xDD, 0xEE, 0xFF);
    let mac2 = MacAddr::new(0x11, 0x22, 0x33, 0x44, 0x55, 0x66);

    process_arp_frame(&mut table, &mut vtx, &reply_payload(target, mac1)).unwrap();
    let after_first = vtx.current();
    assert_eq!(after_first, 1);

    process_arp_frame(&mut table, &mut vtx, &reply_payload(target, mac1)).unwrap();
    assert_eq!(vtx.current(), after_first);

    process_arp_frame(&mut table, &mut vtx, &reply_payload(target, mac2)).unwrap();
    assert_eq!(vtx.current(), after_first + 1);
    assert_eq!(table.get(target), Ok(mac2));
}

#[test]
fn test_waiter_registered_once() {
    // A query for an IP with no waiters parks exactly one waiter.
    let mut table = ArpTable::new();
    let target = Ipv4Addr::new(192, 168, 1, 77);
    let waiter = table.get(target).unwrap_err();
    let drained = table.insert(target, MacAddr::new(1, 1, 1, 1, 1, 1));
    assert_eq!(drained, vec![waiter]);
}

#[test]
fn test_two_waiters_single_reply() {
    // Two outstanding queries for the same IP: one reply notifies both, in
    // registration order, and leaves no waiter behind.
    let mut table = ArpTable::new();
    let mut vtx = VersionedTx::new();
    let target = Ipv4Addr::new(10, 0, 0, 5);
    let mac = MacAddr::new(0xAA, 0xBB, 0xCC, 0xDD, 0xEE, 0xFF);

    let w1 = table.get(target).unwrap_err();
    let w2 = table.get(target).unwrap_err();
    assert_ne!(w1, w2);

    let ingress = process_arp_frame(&mut table, &mut vtx, &reply_payload(target, mac)).unwrap();
    assert_eq!(ingress.waiters, vec![w1, w2]);

    let drained_again = table.insert(target, mac);
    assert_eq!(drained_again.len(), 0);
}

#[test]
fn test_manual_insert() {
    // A manual insert resolves later queries without any network traffic.
    let mut table = ArpTable::new();
    let ip = Ipv4Addr::new(10, 0, 0, 9);
    let mac = MacAddr::new(0x0A, 0x0B, 0x0C, 0x0D, 0x0E, 0x0F);
    let drained = table.insert(ip, mac);
    assert_eq!(drained.len(), 0);
    assert_eq!(table.get(ip), Ok(mac));
}

#[test]
fn test_arp_packet_round_trip() {
    let packet = ArpPacket {
        hardware_type: 1,
        protocol_type: 0x0800,
        hw_addr_len: 6,
        proto_addr_len: 4,
        operation: 2,
        sender_hw: MacAddr::new(9, 9, 9, 9, 9, 9),
        sender_proto: Ipv4Addr::new(172, 16, 0, 1),
        target_hw: MacAddr::new(3, 3, 3, 3, 3, 3),
        target_proto: Ipv4Addr::new(172, 16, 0, 2),
    };
    let bytes = packet.to_bytes();
    assert_eq!(bytes.len(), 28);
    assert_eq!(ArpPacket::parse(&bytes), Some(packet));
}

#[test]
fn test_arp_frame_too_short() {
    let mut table = ArpTable::new();
    let mut vtx = VersionedTx::new();
    let r = process_arp_frame(&mut table, &mut vtx, &vec![0u8; 27]);
    assert!(matches!(r, Err(RxError::Parse)));
    assert_eq!(vtx.current(), 0);
}

#[test]
fn test_table_data_empty() {
    let data = TableData::new();
    assert_eq!(data.entries.len(), 0);
    assert_eq!(data.groups.len(), 0);
}

#[test]
fn test_versioned_tx() {
    let mut vtx = VersionedTx::new();
    assert_eq!(vtx.current(), 0);
    vtx.inc();
    assert_eq!(vtx.current(), 1);
    vtx.inc();
    vtx.inc();
    assert_eq!(vtx.current(), 3);
}
