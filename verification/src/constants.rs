//! Constants of the NetherNet protocol.

use vstd::prelude::*;

verus! {

/// The UDP port LAN discovery packets are sent to.
pub const LAN_DISCOVERY_PORT: u16 = 7551;

/// The size limit the protocol sets for a length-prefixed byte string.
/// The readers of this crate take no more bytes than their input holds.
pub const MAX_BYTES: usize = 16777216;

/// The label of the reliable data channel.
pub const RELIABLE_CHANNEL: &'static str = "ReliableDataChannel";

/// The label of the unreliable data channel.
pub const UNRELIABLE_CHANNEL: &'static str = "UnreliableDataChannel";

/// The capacity of the channel that carries packets of a session.
pub const DEFAULT_PACKET_CHANNEL_CAPACITY: usize = 1024;

} // verus!
