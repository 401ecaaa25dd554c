use crate::codec::utf8_error_text;
use crate::hexcodec::{hex_error_display, hex_error_text};
use crate::text::{decimal, decimal_string};
use vstd::prelude::*;
use vstd::string::*;

verus! {

/// Why a hex string could not be decoded.
#[derive(Debug, Clone, Copy, PartialEq, Eq)]
pub enum HexError {
    /// A byte that is not `0-9`, `a-f` or `A-F`, with its position.
    InvalidHexCharacter { c: char, index: usize },
    /// The hex string has an odd number of digits.
    OddLength,
    /// The hex string does not fit the output it is decoded into.
    InvalidStringLength,
}

/// Errors of the NetherNet protocol layer.
#[derive(Debug, Clone, PartialEq, Eq)]
pub enum NethernetError {
    /// A message segment could not be parsed or does not continue the message.
    MessageParse(String),
    /// A message or packet is larger than the protocol allows; holds its size.
    MessageTooLarge(usize),
    /// The input ended before a value could be read.
    UnexpectedEof,
    /// A byte string is too long for its length prefix; holds its length.
    BytesTooLong(usize),
    /// Any other failure, described by its text.
    Other(String),
}

/// The fields of a `ServerData` that are shifted left by one bit on the wire.
pub enum ShiftedField {
    GameType,
    TransportLayer,
    ConnectionType,
}

/// The two names of a `ServerData`.
pub enum NameField {
    ServerName,
    LevelName,
}

/// Why reading or writing failed, as the specifications tell it; each kind
/// is given to callers as the `NethernetError` that `describes` it.
pub enum ErrorKind {
    MessageTooLarge(usize),
    UnexpectedEof,
    BytesTooLong(usize),
    /// A discovery packet is shorter than its checksum.
    PacketTooShort,
    /// The encrypted part of a packet is empty or not a whole number of blocks.
    InvalidEncryptedLength,
    /// The decrypted payload does not end in valid PKCS#7 padding.
    InvalidPadding,
    /// The checksum of a packet does not match its payload.
    ChecksumMismatch,
    /// The packet id of a header is not one of the known packets.
    UnknownPacketId(u16),
    /// Bytes are left over after the packet was read.
    TrailingData { remaining: usize, total: usize },
    /// The text of a message packet is not UTF-8; holds its bytes.
    InvalidText(Seq<u8>),
    /// A name of a server data is not UTF-8; holds its bytes.
    InvalidName(NameField, Seq<u8>),
    /// The application data of a response is not valid hex.
    HexDecode(HexError),
    /// The server data has another version than the one supported.
    VersionMismatch { got: u8, want: u8 },
    /// Bytes are left over after the server data was read.
    UnreadBytes(usize),
    /// A field that is shifted on the wire is 128 or more.
    FieldOutOfRange(ShiftedField, u8),
}

/// The text of an error that is given as `NethernetError::Other`.
pub open spec fn other_text(k: ErrorKind) -> Seq<char> {
    match k {
        ErrorKind::PacketTooShort => "packet too short"@,
        ErrorKind::InvalidEncryptedLength => "Invalid encrypted data length"@,
        ErrorKind::InvalidPadding => "Invalid padding"@,
        ErrorKind::ChecksumMismatch => "checksum mismatch"@,
        ErrorKind::UnknownPacketId(id) => "unknown packet ID: "@ + decimal(id as nat),
        ErrorKind::TrailingData { remaining, total } => "trailing data in packet: "@ + decimal(
            remaining as nat,
        ) + " remaining bytes out of "@ + decimal(total as nat) + " total payload bytes"@,
        ErrorKind::InvalidText(b) => "invalid UTF-8: "@ + utf8_error_text(b),
        ErrorKind::InvalidName(NameField::ServerName, b) => "invalid server name UTF-8: "@
            + utf8_error_text(b),
        ErrorKind::InvalidName(NameField::LevelName, b) => "invalid level name UTF-8: "@
            + utf8_error_text(b),
        ErrorKind::HexDecode(e) => "hex decode error: "@ + hex_error_text(e),
        ErrorKind::VersionMismatch { got, want } => "version mismatch: got "@ + decimal(got as nat)
            + ", want "@ + decimal(want as nat),
        ErrorKind::UnreadBytes(n) => "unread "@ + decimal(n as nat) + " bytes"@,
        ErrorKind::FieldOutOfRange(ShiftedField::GameType, v) =>
            "game_type must be less than 128 to avoid overflow, got "@ + decimal(v as nat),
        ErrorKind::FieldOutOfRange(ShiftedField::TransportLayer, v) =>
            "transport_layer must be less than 128 to avoid overflow, got "@ + decimal(v as nat),
        ErrorKind::FieldOutOfRange(ShiftedField::ConnectionType, v) =>
            "connection_type must be less than 128 to avoid overflow, got "@ + decimal(v as nat),
        _ => Seq::empty(),
    }
}

/// Whether the error `e` is how the kind `k` is given: a size or the end of
/// the input as their own variants, any other kind as `Other` with its text.
pub open spec fn describes(e: NethernetError, k: ErrorKind) -> bool {
    match k {
        ErrorKind::MessageTooLarge(n) => e == NethernetError::MessageTooLarge(n),
        ErrorKind::UnexpectedEof => e == NethernetError::UnexpectedEof,
        ErrorKind::BytesTooLong(n) => e == NethernetError::BytesTooLong(n),
        _ => e matches NethernetError::Other(t) && t@ == other_text(k),
    }
}

/// `a` followed by `b`.
fn joined(a: &str, b: &str) -> (r: String)
    ensures
        r@ == a@ + b@,
{
    let mut s = String::from_str(a);
    s.append(b);
    s
}

/// A `NethernetError::Other` holding `text`.
fn other(text: String) -> (e: NethernetError)
    ensures
        e matches NethernetError::Other(t) && t@ == text@,
{
    NethernetError::Other(text)
}

/// The error of a discovery packet shorter than its checksum.
pub(crate) fn packet_too_short() -> (e: NethernetError)
    ensures
        describes(e, ErrorKind::PacketTooShort),
{
    other(String::from_str("packet too short"))
}

/// The error of a packet whose checksum does not match its payload.
pub(crate) fn checksum_mismatch() -> (e: NethernetError)
    ensures
        describes(e, ErrorKind::ChecksumMismatch),
{
    other(String::from_str("checksum mismatch"))
}

/// The error of a header with an unknown packet id.
pub(crate) fn unknown_packet_id(id: u16) -> (e: NethernetError)
    ensures
        describes(e, ErrorKind::UnknownPacketId(id)),
{
    let n = decimal_string(id as u64);
    other(joined("unknown packet ID: ", n.as_str()))
}

/// The error of a payload with bytes left after the packet.
pub(crate) fn trailing_data(remaining: usize, total: usize) -> (e: NethernetError)
    ensures
        describes(e, ErrorKind::TrailingData { remaining, total }),
{
    let r = decimal_string(remaining as u64);
    let t = decimal_string(total as u64);
    let mut s = joined("trailing data in packet: ", r.as_str());
    s.append(" remaining bytes out of ");
    s.append(t.as_str());
    s.append(" total payload bytes");
    other(s)
}

/// The error of message text that is not UTF-8; `detail` is what the
/// UTF-8 error of `bytes` displays.
pub(crate) fn invalid_text(Ghost(bytes): Ghost<Seq<u8>>, detail: String) -> (e: NethernetError)
    requires
        detail@ == utf8_error_text(bytes),
    ensures
        describes(e, ErrorKind::InvalidText(bytes)),
{
    other(joined("invalid UTF-8: ", detail.as_str()))
}

/// The error of a name of a server data that is not UTF-8; `detail` is what
/// the UTF-8 error of `bytes` displays.
pub(crate) fn invalid_name(field: NameField, Ghost(bytes): Ghost<Seq<u8>>, detail: String) -> (e:
    NethernetError)
    requires
        detail@ == utf8_error_text(bytes),
    ensures
        describes(e, ErrorKind::InvalidName(field, bytes)),
{
    match field {
        NameField::ServerName => other(joined("invalid server name UTF-8: ", detail.as_str())),
        NameField::LevelName => other(joined("invalid level name UTF-8: ", detail.as_str())),
    }
}

/// The error of application data that is not valid hex.
pub(crate) fn hex_decode_error(he: HexError) -> (e: NethernetError)
    ensures
        describes(e, ErrorKind::HexDecode(he)),
{
    let d = hex_error_display(he);
    other(joined("hex decode error: ", d.as_str()))
}

/// The error of a server data of another version.
pub(crate) fn version_mismatch(got: u8, want: u8) -> (e: NethernetError)
    ensures
        describes(e, ErrorKind::VersionMismatch { got, want }),
{
    let g = decimal_string(got as u64);
    let w = decimal_string(want as u64);
    let mut s = joined("version mismatch: got ", g.as_str());
    s.append(", want ");
    s.append(w.as_str());
    other(s)
}

/// The error of a server data with bytes left after it.
pub(crate) fn unread_bytes(n: usize) -> (e: NethernetError)
    ensures
        describes(e, ErrorKind::UnreadBytes(n)),
{
    let d = decimal_string(n as u64);
    let mut s = joined("unread ", d.as_str());
    s.append(" bytes");
    other(s)
}

/// The error of a shifted field of 128 or more.
pub(crate) fn field_out_of_range(field: ShiftedField, v: u8) -> (e: NethernetError)
    ensures
        describes(e, ErrorKind::FieldOutOfRange(field, v)),
{
    let d = decimal_string(v as u64);
    match field {
        ShiftedField::GameType => other(
            joined("game_type must be less than 128 to avoid overflow, got ", d.as_str()),
        ),
        ShiftedField::TransportLayer => other(
            joined("transport_layer must be less than 128 to avoid overflow, got ", d.as_str()),
        ),
        ShiftedField::ConnectionType => other(
            joined("connection_type must be less than 128 to avoid overflow, got ", d.as_str()),
        ),
    }
}

} // verus!
