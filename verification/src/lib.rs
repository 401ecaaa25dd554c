//! LAN discovery and message framing for the NetherNet protocol: the
//! server data a LAN server advertises, the encrypted and checksummed
//! discovery packets, and the splitting of long messages into segments.

pub mod codec;
pub mod constants;
pub mod crypto;
pub mod error;
pub mod hexcodec;
pub mod message;
pub mod motd;
pub mod packet;
pub mod server_data;
pub mod status;
pub mod text;

pub use crypto::{compute_checksum, decrypt, encrypt, verify_checksum};
pub use error::{HexError, NethernetError};
pub use message::{Message, MessageSegment, MAX_MESSAGE_SIZE};
pub use motd::NethernetMotd;
pub use packet::{
    marshal, unmarshal, DiscoveryPacket, Header, MessagePacket, Packet, RequestPacket,
    ResponsePacket,
};
pub use server_data::ServerData;
