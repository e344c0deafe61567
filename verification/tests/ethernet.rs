use rips::addr::MacAddr;
use rips::ethernet::{parse_frame, serialize_frame, EthernetFrame, EthernetTx};
use rips::ethernet_rx::{EthernetListener, EthernetRx};
use rips::{RxError, RxResult};

struct MockEthernetListener {
    ethertype: u16,
    received: Vec<Vec<u8>>,
}

impl EthernetListener for MockEthernetListener {
    fn ethertype_spec(&self) -> u16 {
        self.ethertype
    }

    fn get_ethertype(&self) -> u16 {
        self.ethertype
    }

    fn recv(&mut self, _time: u64, frame: &EthernetFrame) -> RxResult {
        self.received.push(frame.to_bytes());
        Ok(())
    }
}

#[test]
fn test_ethernet_recv() {
    let mock = MockEthernetListener { ethertype: 0x0806, received: Vec::new() };
    let mut rx = EthernetRx::new(vec![mock]);

    let buffer = serialize_frame(
        MacAddr::new(9, 8, 7, 6, 5, 4),
        MacAddr::new(1, 2, 3, 4, 5, 6),
        0x0806,
        &vec![15, 16, 17],
    );
    let result = rx.recv(0, &buffer);
    assert!(result.is_ok());

    let received = &rx.groups[0].members[0].received;
    assert_eq!(received.len(), 1);
    let eth_packet = parse_frame(&received[0]).unwrap();
    assert_eq!(
        (1, 2, 3, 4, 5, 6),
        (
            eth_packet.src.0,
            eth_packet.src.1,
            eth_packet.src.2,
            eth_packet.src.3,
            eth_packet.src.4,
            eth_packet.src.5
        )
    );
    assert_eq!(
        (9, 8, 7, 6, 5, 4),
        (
            eth_packet.dst.0,
            eth_packet.dst.1,
            eth_packet.dst.2,
            eth_packet.dst.3,
            eth_packet.dst.4,
            eth_packet.dst.5
        )
    );
    assert_eq!(0x0806, eth_packet.ethertype);
    assert_eq!(&[15, 16, 17], &eth_packet.payload[..]);
}

#[test]
fn test_ethernet_send() {
    let ethernet = EthernetTx::new(MacAddr::new(1, 2, 3, 4, 5, 99), MacAddr::new(6, 7, 8, 9, 10, 11));

    let sent_buffer = ethernet.send(0x8035, &vec![57]);

    assert_eq!(15, sent_buffer.len());
    let sent_pkg = parse_frame(&sent_buffer).expect("Expected buffer to fit a frame");
    assert_eq!(
        (1, 2, 3, 4, 5, 99),
        (
            sent_pkg.src.0,
            sent_pkg.src.1,
            sent_pkg.src.2,
            sent_pkg.src.3,
            sent_pkg.src.4,
            sent_pkg.src.5
        )
    );
    assert_eq!(
        (6, 7, 8, 9, 10, 11),
        (
            sent_pkg.dst.0,
            sent_pkg.dst.1,
            sent_pkg.dst.2,
            sent_pkg.dst.3,
            sent_pkg.dst.4,
            sent_pkg.dst.5
        )
    );
    assert_eq!(0x8035, sent_pkg.ethertype);
    assert_eq!(57, sent_pkg.payload[0]);
}

#[test]
fn test_frame_round_trip() {
    let frame = EthernetFrame {
        dst: MacAddr::new(0xFF, 0xFF, 0xFF, 0xFF, 0xFF, 0xFF),
        src: MacAddr::new(0xDE, 0xAD, 0x00, 0x01, 0x02, 0x03),
        ethertype: 0x0800,
        payload: vec![1, 2, 3, 4, 5],
    };
    let bytes = frame.to_bytes();
    assert_eq!(bytes.len(), 19);
    let parsed = parse_frame(&bytes).unwrap();
    assert_eq!(parsed.dst, frame.dst);
    assert_eq!(parsed.src, frame.src);
    assert_eq!(parsed.ethertype, frame.ethertype);
    assert_eq!(parsed.payload, frame.payload);
}

#[test]
fn test_frame_too_short() {
    assert!(parse_frame(&vec![0u8; 13]).is_none());
    assert!(parse_frame(&vec![0u8; 14]).is_some());
}

#[test]
fn test_demux_miss() {
    // A frame whose EtherType nobody registered: no listener is invoked and
    // nothing surfaces but a quiet NoListener report.
    let mock = MockEthernetListener { ethertype: 0x0806, received: Vec::new() };
    let mut rx = EthernetRx::new(vec![mock]);
    let buffer = serialize_frame(
        MacAddr::new(9, 8, 7, 6, 5, 4),
        MacAddr::new(1, 2, 3, 4, 5, 6),
        0x88B5,
        &vec![],
    );
    let result = rx.recv(0, &buffer);
    assert_eq!(result, Err(RxError::NoListener));
    assert_eq!(rx.groups[0].members[0].received.len(), 0);
}

#[test]
fn test_demux_parse_error() {
    let mock = MockEthernetListener { ethertype: 0x0806, received: Vec::new() };
    let mut rx = EthernetRx::new(vec![mock]);
    let result = rx.recv(0, &vec![1, 2, 3]);
    assert_eq!(result, Err(RxError::Parse));
}

#[test]
fn test_demux_registration_order() {
    // Two listeners for one EtherType hear every frame in registration
    // order; a listener for another EtherType hears nothing.
    let a = MockEthernetListener { ethertype: 0x0806, received: Vec::new() };
    let b = MockEthernetListener { ethertype: 0x0800, received: Vec::new() };
    let c = MockEthernetListener { ethertype: 0x0806, received: Vec::new() };
    let mut rx = EthernetRx::new(vec![a, b, c]);
    let buffer = serialize_frame(
        MacAddr::new(1, 1, 1, 1, 1, 1),
        MacAddr::new(2, 2, 2, 2, 2, 2),
        0x0806,
        &vec![42],
    );
    assert!(rx.recv(7, &buffer).is_ok());
    // Group 0 holds both ARP listeners, in order; group 1 the IPv4 one.
    assert_eq!(rx.groups.len(), 2);
    assert_eq!(rx.groups[0].ethertype, 0x0806);
    assert_eq!(rx.groups[0].members.len(), 2);
    assert_eq!(rx.groups[0].members[0].received.len(), 1);
    assert_eq!(rx.groups[0].members[1].received.len(), 1);
    assert_eq!(rx.groups[1].members[0].received.len(), 0);
}
