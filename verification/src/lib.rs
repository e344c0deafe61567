//! A small user-space network stack core: Ethernet frame handling with
//! EtherType demultiplexing, an ARP resolver with waiter registration, and an
//! IPv4 egress path with next-hop selection and header checksumming.
//!
//! The library is pure with respect to the outside world: it builds and parses
//! frames as plain byte vectors and transforms explicit state records. A host
//! program supplies the link-layer I/O, threads and blocking around it.

pub mod addr;
pub mod arp_packet;
pub mod arp_table;
pub mod bytes;
pub mod checksum;
pub mod ethernet;
pub mod ethernet_rx;
pub mod icmp;
pub mod ipv4;
pub mod net;
pub mod versioned;

use vstd::prelude::*;

verus! {

/// Why the receive side dropped a frame.
#[derive(Clone, Copy, PartialEq, Eq, Structural, Debug)]
pub enum RxError {
    /// The frame or packet was malformed.
    Parse,
    /// Nobody listens for the frame's EtherType or the packet's
    /// (destination, protocol) pair.
    NoListener,
}

/// Result of delivering a received frame.
pub type RxResult = Result<(), RxError>;

/// Why the send side could not emit a frame. Raised by the link layer that a
/// host program supplies; reported to callers, never retried inside the core.
#[derive(Clone, Copy, PartialEq, Eq, Structural, Debug)]
pub enum TxError {
    /// The link is down.
    LinkDown,
    /// No buffer space is left on the link.
    BufferFull,
    /// The link failed with an I/O error.
    IoError,
}

/// Result of handing a frame to the link.
pub type TxResult = Result<(), TxError>;

} // verus!
