//! Discovery packets: the header, the three packet kinds, and the framing
//! of a packet as checksum followed by the encrypted payload.

use crate::codec::{
    le_u16, le_u32, le_u64, lemma_le_roundtrip, lemma_le_u32, lemma_le_u64, prefixed_u32, read_bytes, read_bytes_u32,
    read_bytes_u32_spec, read_u16_le, read_u16_spec, read_u64_le, read_u64_spec,
    string_from_utf8, take_at, write_bytes, write_bytes_u32, write_u16_le, write_u32_le,
    write_u64_le,
};
use crate::crypto::{
    checksum_spec, compute_checksum, decrypt, decrypt_payload, ecb_encrypt, encrypt, encryption_key,
    hmac_sha256_tag, pkcs7_pad, verify_checksum,
};
use crate::error::{
    checksum_mismatch, describes, hex_decode_error, invalid_text, packet_too_short, trailing_data,
    unknown_packet_id, ErrorKind, NethernetError,
};
use crate::hexcodec::{
    hex_decode, hex_decode_spec, hex_encode, hex_encode_spec, lemma_hex_roundtrip,
};
use vstd::prelude::*;
use vstd::slice::*;
use vstd::utf8::*;

verus! {

/// Packet id of a discovery request.
pub const ID_REQUEST_PACKET: u16 = 0;

/// Packet id of a discovery response.
pub const ID_RESPONSE_PACKET: u16 = 1;

/// Packet id of a message packet.
pub const ID_MESSAGE_PACKET: u16 = 2;

/// Size of a packet header: id, sender id and eight bytes of padding.
pub const HEADER_SIZE: usize = 18;

/// What a discovery packet holds.
pub enum PacketView {
    Request,
    Response(Seq<u8>),
    Message(u64, Seq<char>),
}

/// The bytes of a header: the packet id and the sender id in little-endian
/// order, then eight zero bytes.
pub open spec fn header_bytes(packet_id: u16, sender_id: u64) -> Seq<u8> {
    le_u16(packet_id) + le_u64(sender_id) + Seq::new(8, |i: int| 0u8)
}

/// Reading a header at `pos`: packet id, sender id and the position after
/// the padding.
pub open spec fn read_header_spec(s: Seq<u8>, pos: int) -> Result<(u16, u64, int), ErrorKind> {
    match read_u16_spec(s, pos) {
        Err(e) => Err(e),
        Ok((packet_id, p1)) => match read_u64_spec(s, p1) {
            Err(e) => Err(e),
            Ok((sender_id, p2)) => match take_at(s, p2, 8) {
                Err(e) => Err(e),
                Ok((_, p3)) => Ok((packet_id, sender_id, p3)),
            },
        },
    }
}

/// The body of a message packet: the recipient id, then the UTF-8 bytes of
/// the text behind a four-byte length.
pub open spec fn message_body(recipient_id: u64, data: Seq<char>) -> Result<Seq<u8>, ErrorKind> {
    let b = encode_utf8(data);
    if b.len() > u32::MAX {
        Err(ErrorKind::BytesTooLong(b.len() as usize))
    } else {
        Ok(le_u64(recipient_id) + prefixed_u32(b))
    }
}

/// The body of a response packet: the lower-case hex of the application
/// data behind a four-byte length.
pub open spec fn response_body(data: Seq<u8>) -> Seq<u8> {
    prefixed_u32(hex_encode_spec(data))
}

/// Reading the body of the packet with id `packet_id` at `pos`.
pub open spec fn read_body_spec(packet_id: u16, s: Seq<u8>, pos: int) -> Result<
    (PacketView, int),
    ErrorKind,
> {
    if packet_id == ID_REQUEST_PACKET {
        Ok((PacketView::Request, pos))
    } else if packet_id == ID_RESPONSE_PACKET {
        match read_bytes_u32_spec(s, pos) {
            Err(e) => Err(e),
            Ok((hex, p)) => match hex_decode_spec(hex) {
                Err(he) => Err(ErrorKind::HexDecode(he)),
                Ok(d) => Ok((PacketView::Response(d), p)),
            },
        }
    } else if packet_id == ID_MESSAGE_PACKET {
        match read_u64_spec(s, pos) {
            Err(e) => Err(e),
            Ok((recipient_id, p1)) => match read_bytes_u32_spec(s, p1) {
                Err(e) => Err(e),
                Ok((b, p2)) => if valid_utf8(b) {
                    Ok((PacketView::Message(recipient_id, decode_utf8(b)), p2))
                } else {
                    Err(ErrorKind::InvalidText(b))
                },
            },
        }
    } else {
        Err(ErrorKind::UnknownPacketId(packet_id))
    }
}

/// The bytes of a successful write, or nothing.
pub open spec fn written(r: Result<Seq<u8>, ErrorKind>) -> Seq<u8> {
    match r {
        Ok(b) => b,
        Err(_) => Seq::empty(),
    }
}

/// A packet of the discovery protocol.
pub trait Packet: Sized {
    /// The packet id written in the header.
    spec fn spec_id(&self) -> u16;

    /// What the packet holds.
    spec fn spec_view(&self) -> PacketView;

    /// The bytes `write` appends, or the error it gives.
    spec fn spec_body(&self) -> Result<Seq<u8>, ErrorKind>;

    /// What a `read` at `pos` that fails leaves of the packet: the fields
    /// it had already read before the error.
    spec fn spec_after_failed_read(&self, data: Seq<u8>, pos: int) -> Self;

    /// The packet id.
    fn id(&self) -> (r: u16)
        ensures
            r == self.spec_id(),
    ;

    /// Reads the body of this kind of packet at `pos` into `self` and gives
    /// the position after it; on an error `self` keeps the fields read
    /// before it.
    fn read(&mut self, data: &[u8], pos: usize) -> (r: Result<usize, NethernetError>)
        ensures
            final(self).spec_id() == old(self).spec_id(),
            match read_body_spec(old(self).spec_id(), data@, pos as int) {
                Ok((v, p)) => r matches Ok(q) && q == p && final(self).spec_view() == v,
                Err(e) => r matches Err(x) && describes(x, e) && *final(self)
                    == old(self).spec_after_failed_read(data@, pos as int),
            },
    ;

    /// Appends the body of the packet; on an error nothing is appended.
    fn write(&self, out: &mut Vec<u8>) -> (r: Result<(), NethernetError>)
        ensures
            match self.spec_body() {
                Ok(b) => r is Ok && final(out)@ == old(out)@ + b,
                Err(e) => r matches Err(x) && describes(x, e) && final(out)@ == old(out)@,
            },
    ;

    /// Reading a written body of up to `u16::MAX` bytes, after any bytes,
    /// gives the packet back and ends where the body ends.
    proof fn lemma_body_roundtrip(&self, pre: Seq<u8>)
        requires
            self.spec_body() is Ok,
            written(self.spec_body()).len() <= u16::MAX,
        ensures
            read_body_spec(self.spec_id(), pre + written(self.spec_body()), pre.len() as int)
                == Ok::<(PacketView, int), ErrorKind>(
                (self.spec_view(), (pre.len() + written(self.spec_body()).len()) as int),
            ),
    ;
}

/// A request for the server data of LAN servers; it has no body.
#[derive(Debug, Clone, Copy, Default, PartialEq, Eq)]
pub struct RequestPacket;

/// The answer to a request: application data, sent as hex.
#[derive(Debug, Clone, Default)]
pub struct ResponsePacket {
    pub application_data: Vec<u8>,
}

/// A text message to a recipient.
#[derive(Debug, Clone, Default)]
pub struct MessagePacket {
    pub recipient_id: u64,
    pub data: String,
}

impl ResponsePacket {
    /// A response with the given application data.
    pub fn new(application_data: Vec<u8>) -> (r: Self)
        ensures
            r.application_data@ == application_data@,
    {
        ResponsePacket { application_data }
    }
}

impl MessagePacket {
    /// A message for `recipient_id` holding `data`.
    pub fn new(recipient_id: u64, data: String) -> (r: Self)
        ensures
            r.recipient_id == recipient_id,
            r.data@ == data@,
    {
        MessagePacket { recipient_id, data }
    }
}

/// After any bytes, reading a four-byte length and that many bytes gives
/// back a byte string written with `prefixed_u32`.
proof fn lemma_read_prefixed_u32(pre: Seq<u8>, b: Seq<u8>, post: Seq<u8>)
    requires
        b.len() <= u32::MAX,
    ensures
        read_bytes_u32_spec(pre + prefixed_u32(b) + post, pre.len() as int) == Ok::<
            (Seq<u8>, int),
            ErrorKind,
        >((b, (pre.len() + 4 + b.len()) as int)),
{
    lemma_le_u32(b.len() as u32);
    let s = pre + prefixed_u32(b) + post;
    let n = pre.len() as int;
    assert(s.subrange(n, n + 4) =~= le_u32(b.len() as u32));
    assert(s.subrange(n + 4, n + 4 + b.len()) =~= b);
}

impl Packet for RequestPacket {
    open spec fn spec_id(&self) -> u16 {
        ID_REQUEST_PACKET
    }

    open spec fn spec_view(&self) -> PacketView {
        PacketView::Request
    }

    open spec fn spec_body(&self) -> Result<Seq<u8>, ErrorKind> {
        Ok(Seq::empty())
    }

    open spec fn spec_after_failed_read(&self, data: Seq<u8>, pos: int) -> Self {
        *self
    }

    fn id(&self) -> (r: u16) {
        ID_REQUEST_PACKET
    }

    fn read(&mut self, data: &[u8], pos: usize) -> (r: Result<usize, NethernetError>) {
        Ok(pos)
    }

    fn write(&self, out: &mut Vec<u8>) -> (r: Result<(), NethernetError>) {
        assert(out@ =~= out@ + Seq::<u8>::empty());
        Ok(())
    }

    proof fn lemma_body_roundtrip(&self, pre: Seq<u8>) {
        assert(pre + Seq::<u8>::empty() =~= pre);
    }
}

impl Packet for ResponsePacket {
    open spec fn spec_id(&self) -> u16 {
        ID_RESPONSE_PACKET
    }

    open spec fn spec_view(&self) -> PacketView {
        PacketView::Response(self.application_data@)
    }

    open spec fn spec_body(&self) -> Result<Seq<u8>, ErrorKind> {
        Ok(response_body(self.application_data@))
    }

    open spec fn spec_after_failed_read(&self, data: Seq<u8>, pos: int) -> Self {
        *self
    }

    fn id(&self) -> (r: u16) {
        ID_RESPONSE_PACKET
    }

    fn read(&mut self, data: &[u8], pos: usize) -> (r: Result<usize, NethernetError>) {
        let (hex, p) = match read_bytes_u32(data, pos) {
            Ok(x) => x,
            Err(e) => return Err(e),
        };
        match hex_decode(hex.as_slice()) {
            Ok(d) => {
                self.application_data = d;
                Ok(p)
            },
            Err(he) => Err(hex_decode_error(he)),
        }
    }

    fn write(&self, out: &mut Vec<u8>) -> (r: Result<(), NethernetError>) {
        let hex = hex_encode(self.application_data.as_slice());
        write_u32_le(out, hex.len() as u32);
        write_bytes(out, hex.as_slice());
        assert(out@ =~= old(out)@ + response_body(self.application_data@));
        Ok(())
    }

    proof fn lemma_body_roundtrip(&self, pre: Seq<u8>) {
        let h = hex_encode_spec(self.application_data@);
        lemma_le_u32(h.len() as u32);
        assert(written(self.spec_body()) == prefixed_u32(h));
        assert(h.len() <= u32::MAX);
        lemma_read_prefixed_u32(pre, h, Seq::empty());
        assert(pre + prefixed_u32(h) + Seq::<u8>::empty() =~= pre + prefixed_u32(h));
        lemma_hex_roundtrip(self.application_data@);
    }
}

impl Packet for MessagePacket {
    open spec fn spec_id(&self) -> u16 {
        ID_MESSAGE_PACKET
    }

    open spec fn spec_view(&self) -> PacketView {
        PacketView::Message(self.recipient_id, self.data@)
    }

    open spec fn spec_body(&self) -> Result<Seq<u8>, ErrorKind> {
        message_body(self.recipient_id, self.data@)
    }

    /// The recipient id is kept when it was read before the error.
    open spec fn spec_after_failed_read(&self, data: Seq<u8>, pos: int) -> Self {
        match read_u64_spec(data, pos) {
            Ok((recipient_id, _)) => MessagePacket { recipient_id, data: self.data },
            Err(_) => *self,
        }
    }

    fn id(&self) -> (r: u16) {
        ID_MESSAGE_PACKET
    }

    fn read(&mut self, data: &[u8], pos: usize) -> (r: Result<usize, NethernetError>) {
        let (recipient_id, p1) = match read_u64_le(data, pos) {
            Ok(x) => x,
            Err(e) => return Err(e),
        };
        self.recipient_id = recipient_id;
        let (bytes, p2) = match read_bytes_u32(data, p1) {
            Ok(x) => x,
            Err(e) => return Err(e),
        };
        let ghost b = bytes@;
        match string_from_utf8(bytes) {
            Ok(s) => {
                self.data = s;
                Ok(p2)
            },
            Err(t) => Err(invalid_text(Ghost(b), t)),
        }
    }

    fn write(&self, out: &mut Vec<u8>) -> (r: Result<(), NethernetError>) {
        let bytes = self.data.as_str().as_bytes();
        if bytes.len() > 0xffff_ffffusize {
            return Err(NethernetError::BytesTooLong(bytes.len()));
        }
        write_u64_le(out, self.recipient_id);
        let _ = write_bytes_u32(out, bytes);
        assert(out@ =~= old(out)@ + (le_u64(self.recipient_id) + prefixed_u32(bytes@)));
        Ok(())
    }

    proof fn lemma_body_roundtrip(&self, pre: Seq<u8>) {
        let b = encode_utf8(self.data@);
        encode_utf8_valid_utf8(self.data@);
        encode_utf8_decode_utf8(self.data@);
        lemma_le_u64(self.recipient_id);
        lemma_le_u32(b.len() as u32);
        let head = pre + le_u64(self.recipient_id);
        let body = le_u64(self.recipient_id) + prefixed_u32(b);
        assert(written(self.spec_body()) == body);
        let s = pre + body;
        let n = pre.len() as int;
        assert(s.subrange(n, n + 8) =~= le_u64(self.recipient_id));
        assert(read_u64_spec(s, n) == Ok::<(u64, int), ErrorKind>((self.recipient_id, n + 8)));
        assert(s =~= head + prefixed_u32(b) + Seq::<u8>::empty());
        lemma_read_prefixed_u32(head, b, Seq::empty());
        assert(head.len() == n + 8);
        assert(read_bytes_u32_spec(s, n + 8) == Ok::<(Seq<u8>, int), ErrorKind>(
            (b, n + 12 + b.len()),
        ));
        assert(valid_utf8(b));
        assert(decode_utf8(b) == self.data@);
    }
}

/// A packet read from the wire, of one of the three kinds.
#[derive(Debug, Clone)]
pub enum DiscoveryPacket {
    Request(RequestPacket),
    Response(ResponsePacket),
    Message(MessagePacket),
}

impl View for DiscoveryPacket {
    type V = PacketView;

    open spec fn view(&self) -> PacketView {
        match self {
            DiscoveryPacket::Request(p) => p.spec_view(),
            DiscoveryPacket::Response(p) => p.spec_view(),
            DiscoveryPacket::Message(p) => p.spec_view(),
        }
    }
}

impl Packet for DiscoveryPacket {
    open spec fn spec_id(&self) -> u16 {
        match self {
            DiscoveryPacket::Request(p) => p.spec_id(),
            DiscoveryPacket::Response(p) => p.spec_id(),
            DiscoveryPacket::Message(p) => p.spec_id(),
        }
    }

    open spec fn spec_view(&self) -> PacketView {
        self@
    }

    open spec fn spec_body(&self) -> Result<Seq<u8>, ErrorKind> {
        match self {
            DiscoveryPacket::Request(p) => p.spec_body(),
            DiscoveryPacket::Response(p) => p.spec_body(),
            DiscoveryPacket::Message(p) => p.spec_body(),
        }
    }

    open spec fn spec_after_failed_read(&self, data: Seq<u8>, pos: int) -> Self {
        match self {
            DiscoveryPacket::Message(p) => DiscoveryPacket::Message(
                p.spec_after_failed_read(data, pos),
            ),
            _ => *self,
        }
    }

    fn id(&self) -> (r: u16) {
        match self {
            DiscoveryPacket::Request(p) => p.id(),
            DiscoveryPacket::Response(p) => p.id(),
            DiscoveryPacket::Message(p) => p.id(),
        }
    }

    fn read(&mut self, data: &[u8], pos: usize) -> (r: Result<usize, NethernetError>) {
        match self {
            DiscoveryPacket::Request(p) => p.read(data, pos),
            DiscoveryPacket::Response(p) => p.read(data, pos),
            DiscoveryPacket::Message(p) => p.read(data, pos),
        }
    }

    fn write(&self, out: &mut Vec<u8>) -> (r: Result<(), NethernetError>) {
        match self {
            DiscoveryPacket::Request(p) => p.write(out),
            DiscoveryPacket::Response(p) => p.write(out),
            DiscoveryPacket::Message(p) => p.write(out),
        }
    }

    proof fn lemma_body_roundtrip(&self, pre: Seq<u8>) {
        match self {
            DiscoveryPacket::Request(p) => p.lemma_body_roundtrip(pre),
            DiscoveryPacket::Response(p) => p.lemma_body_roundtrip(pre),
            DiscoveryPacket::Message(p) => p.lemma_body_roundtrip(pre),
        }
    }
}

/// The header that starts every discovery payload.
#[derive(Debug, Clone, Copy, PartialEq, Eq)]
pub struct Header {
    pub packet_id: u16,
    pub sender_id: u64,
}

impl Header {
    /// Reads a header at `pos` and gives the position after it.
    pub fn read(data: &[u8], pos: usize) -> (r: Result<(Header, usize), NethernetError>)
        ensures
            match read_header_spec(data@, pos as int) {
                Ok((packet_id, sender_id, p)) => r matches Ok((h, q)) && h.packet_id == packet_id
                    && h.sender_id == sender_id && q == p,
                Err(e) => r matches Err(x) && describes(x, e),
            },
    {
        let (packet_id, p1) = match read_u16_le(data, pos) {
            Ok(x) => x,
            Err(e) => return Err(e),
        };
        let (sender_id, p2) = match read_u64_le(data, p1) {
            Ok(x) => x,
            Err(e) => return Err(e),
        };
        let (_, p3) = match read_bytes(data, p2, 8) {
            Ok(x) => x,
            Err(e) => return Err(e),
        };
        Ok((Header { packet_id, sender_id }, p3))
    }

    /// Appends the header; it never fails.
    pub fn write(&self, out: &mut Vec<u8>) -> (r: Result<(), NethernetError>)
        ensures
            r is Ok,
            final(out)@ == old(out)@ + header_bytes(self.packet_id, self.sender_id),
    {
        write_u16_le(out, self.packet_id);
        write_u64_le(out, self.sender_id);
        let ghost mid = out@;
        let mut i: usize = 0;
        while i < 8
            invariant
                i <= 8,
                out@ == mid + Seq::new(i as nat, |j: int| 0u8),
            decreases 8 - i,
        {
            out.push(0u8);
            i = i + 1;
            assert(out@ =~= mid + Seq::new(i as nat, |j: int| 0u8));
        }
        assert(out@ =~= old(out)@ + header_bytes(self.packet_id, self.sender_id));
        Ok(())
    }
}

/// After any bytes, reading a written header gives it back.
pub proof fn lemma_header_roundtrip(pre: Seq<u8>, packet_id: u16, sender_id: u64, post: Seq<u8>)
    ensures
        read_header_spec(pre + header_bytes(packet_id, sender_id) + post, pre.len() as int)
            == Ok::<(u16, u64, int), ErrorKind>((packet_id, sender_id, (pre.len() + 18) as int)),
{
    lemma_le_roundtrip();
    let s = pre + header_bytes(packet_id, sender_id) + post;
    let n = pre.len() as int;
    assert(s.subrange(n, n + 2) =~= le_u16(packet_id));
    assert(s.subrange(n + 2, n + 10) =~= le_u64(sender_id));
}

/// The plain payload of a packet: the length of header and body as a
/// little-endian `u16`, the header, then the body.
pub open spec fn plain_payload(packet_id: u16, sender_id: u64, body: Seq<u8>) -> Seq<u8> {
    le_u16((18 + body.len()) as u16) + header_bytes(packet_id, sender_id) + body
}

/// The framing of a packet: refused when length, header and body exceed
/// `u16::MAX` bytes (the error holds their size); else the checksum of the
/// plain payload followed by the encrypted payload.
pub open spec fn frame_spec(packet_id: u16, sender_id: u64, body: Seq<u8>) -> Result<
    Seq<u8>,
    ErrorKind,
> {
    if 20 + body.len() > u16::MAX {
        Err(ErrorKind::MessageTooLarge((20 + body.len()) as usize))
    } else {
        let plain = plain_payload(packet_id, sender_id, body);
        Ok(hmac_sha256_tag(encryption_key(), plain) + ecb_encrypt(encryption_key(), pkcs7_pad(plain)))
    }
}

/// Reading a plain payload: the length (not checked), the header, the body
/// of the packet the header names, and nothing after it.
pub open spec fn parse_payload(p: Seq<u8>) -> Result<(PacketView, u64), ErrorKind> {
    match read_u16_spec(p, 0) {
        Err(e) => Err(e),
        Ok((_, p1)) => match read_header_spec(p, p1) {
            Err(e) => Err(e),
            Ok((packet_id, sender_id, p2)) => match read_body_spec(packet_id, p, p2) {
                Err(e) => Err(e),
                Ok((v, end)) => if end < p.len() {
                    Err(
                        ErrorKind::TrailingData {
                            remaining: (p.len() - end) as usize,
                            total: p.len() as usize,
                        },
                    )
                } else {
                    Ok((v, sender_id))
                },
            },
        },
    }
}

/// Reading a framed packet: at least the 32 checksum bytes, an encrypted
/// payload that decrypts, a checksum that matches the plain payload, and a
/// plain payload that reads.
pub open spec fn unmarshal_spec(data: Seq<u8>) -> Result<(PacketView, u64), ErrorKind> {
    if data.len() < 32 {
        Err(ErrorKind::PacketTooShort)
    } else {
        match decrypt_payload(data.skip(32)) {
            Err(e) => Err(e),
            Ok(p) => if hmac_sha256_tag(encryption_key(), p) != data.take(32) {
                Err(ErrorKind::ChecksumMismatch)
            } else {
                parse_payload(p)
            },
        }
    }
}

/// Frames `packet` from `sender_id`: checksum, then the encrypted payload.
/// A packet whose body cannot be written gives that error; one whose
/// length, header and body exceed `u16::MAX` bytes is refused. Reading the
/// result back gives the packet and the sender.
pub fn marshal<P: Packet>(packet: &P, sender_id: u64) -> (r: Result<Vec<u8>, NethernetError>)
    ensures
        match packet.spec_body() {
            Err(e) => r matches Err(x) && describes(x, e),
            Ok(body) => match frame_spec(packet.spec_id(), sender_id, body) {
                Ok(b) => r matches Ok(v) && v@ == b,
                Err(e) => r matches Err(x) && describes(x, e),
            },
        },
        r matches Ok(v) ==> unmarshal_spec(v@) == Ok::<(PacketView, u64), ErrorKind>(
            (packet.spec_view(), sender_id),
        ),
        r matches Ok(v) ==> (packet.spec_body() matches Ok(body) && {
            let plain = plain_payload(packet.spec_id(), sender_id, body);
            &&& v@.len() == 32 + pkcs7_pad(plain).len()
            &&& v@.len() == 32 + ((20 + body.len()) / 16 + 1) * 16
            &&& v@.take(32) == checksum_spec(plain)
            &&& decrypt_payload(v@.skip(32)) == Ok::<Seq<u8>, ErrorKind>(plain)
        }),
{
    let mut payload: Vec<u8> = Vec::new();
    payload.push(0u8);
    payload.push(0u8);
    let header = Header { packet_id: packet.id(), sender_id };
    let _ = header.write(&mut payload);
    match packet.write(&mut payload) {
        Ok(()) => {},
        Err(e) => return Err(e),
    }
    let ghost body = written(packet.spec_body());
    proof {
        lemma_le_roundtrip();
    }
    assert(payload@.len() == 20 + body.len());
    let total_len = payload.len();
    if total_len > 0xffff {
        return Err(NethernetError::MessageTooLarge(total_len));
    }
    let data_len = (total_len - 2) as u16;
    let len_bytes = vstd::bytes::u16_to_le_bytes(data_len);
    payload.set(0, len_bytes[0]);
    payload.set(1, len_bytes[1]);
    let ghost plain = plain_payload(packet.spec_id(), sender_id, body);
    proof {
        lemma_le_roundtrip();
    }
    assert(payload@ =~= plain);
    let checksum = compute_checksum(payload.as_slice());
    let _ = encrypt(&mut payload);
    let mut out: Vec<u8> = Vec::new();
    write_bytes(&mut out, checksum.as_slice());
    out.append(&mut payload);
    proof {
        assert(out@.take(32) =~= checksum@);
        assert(out@.skip(32) =~= ecb_encrypt(encryption_key(), pkcs7_pad(plain)));
        let pre = le_u16((18 + body.len()) as u16) + header_bytes(packet.spec_id(), sender_id);
        lemma_header_roundtrip(le_u16((18 + body.len()) as u16), packet.spec_id(), sender_id, body);
        packet.lemma_body_roundtrip(pre);
        assert(plain =~= pre + body);
        assert(plain.subrange(0, 2) =~= le_u16((18 + body.len()) as u16));
    }
    Ok(out)
}

/// Reads a framed packet and gives the packet and its sender.
pub fn unmarshal(data: &[u8]) -> (r: Result<(DiscoveryPacket, u64), NethernetError>)
    ensures
        match unmarshal_spec(data@) {
            Ok((v, sender_id)) => r matches Ok((p, s)) && p@ == v && s == sender_id,
            Err(e) => r matches Err(x) && describes(x, e),
        },
        r is Ok ==> data@.len() >= 64 && (data@.len() - 32) % 16 == 0,
{
    if data.len() < 32 {
        return Err(packet_too_short());
    }
    let mut checksum = [0u8; 32];
    let mut i: usize = 0;
    while i < 32
        invariant
            i <= 32,
            data@.len() >= 32,
            checksum@.len() == 32,
            forall|j: int| 0 <= j < i ==> checksum@[j] == data@[j],
        decreases 32 - i,
    {
        checksum[i] = data[i];
        i = i + 1;
    }
    assert(checksum@ =~= data@.take(32));
    let mut payload = slice_to_vec(slice_subrange(data, 32, data.len()));
    assert(payload@ =~= data@.skip(32));
    match decrypt(&mut payload) {
        Ok(()) => {},
        Err(e) => return Err(e),
    }
    if !verify_checksum(payload.as_slice(), &checksum) {
        return Err(checksum_mismatch());
    }
    let p = payload.as_slice();
    let (_, p1) = match read_u16_le(p, 0) {
        Ok(x) => x,
        Err(e) => return Err(e),
    };
    let (header, p2) = match Header::read(p, p1) {
        Ok(x) => x,
        Err(e) => return Err(e),
    };
    let mut packet = if header.packet_id == ID_REQUEST_PACKET {
        DiscoveryPacket::Request(RequestPacket)
    } else if header.packet_id == ID_RESPONSE_PACKET {
        DiscoveryPacket::Response(ResponsePacket { application_data: Vec::new() })
    } else if header.packet_id == ID_MESSAGE_PACKET {
        DiscoveryPacket::Message(MessagePacket { recipient_id: 0, data: String::new() })
    } else {
        return Err(unknown_packet_id(header.packet_id));
    };
    let end = match packet.read(p, p2) {
        Ok(e) => e,
        Err(e) => return Err(e),
    };
    let payload_len = p.len();
    if end < payload_len {
        return Err(trailing_data(payload_len - end, payload_len));
    }
    Ok((packet, header.sender_id))
}

} // verus!
