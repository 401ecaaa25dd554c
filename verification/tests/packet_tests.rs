use nethernet::{
    compute_checksum, encrypt, marshal, unmarshal, DiscoveryPacket, Header,
    MessagePacket, NethernetError, Packet, RequestPacket, ResponsePacket,
};

fn other(text: &str) -> NethernetError {
    NethernetError::Other(text.to_string())
}

#[test]
fn test_header_roundtrip() {
    let header = Header {
        packet_id: 0x01,
        sender_id: 0x1234567890abcdef,
    };

    let mut buf = Vec::new();
    header.write(&mut buf).unwrap();

    let (decoded, _) = Header::read(&buf, 0).unwrap();

    assert_eq!(header.packet_id, decoded.packet_id);
    assert_eq!(header.sender_id, decoded.sender_id);
}

#[test]
fn header_bytes_and_short_input() {
    let header = Header { packet_id: 2, sender_id: 0x0102030405060708 };
    let mut buf = Vec::new();
    header.write(&mut buf).unwrap();
    assert_eq!(
        buf,
        vec![2, 0, 8, 7, 6, 5, 4, 3, 2, 1, 0, 0, 0, 0, 0, 0, 0, 0]
    );
    assert_eq!(Header::read(&buf[..17], 0).err(), Some(NethernetError::UnexpectedEof));
    let (_, end) = Header::read(&buf, 0).unwrap();
    assert_eq!(end, 18);
}

/// Frames a plain payload by hand: checksum, then the encrypted payload.
fn frame(plain: Vec<u8>) -> Vec<u8> {
    let checksum = compute_checksum(&plain);
    let mut payload = plain;
    encrypt(&mut payload).unwrap();
    let mut out = checksum.to_vec();
    out.extend_from_slice(&payload);
    out
}

fn plain(packet_id: u16, sender_id: u64, body: &[u8]) -> Vec<u8> {
    let mut p = ((18 + body.len()) as u16).to_le_bytes().to_vec();
    p.extend_from_slice(&packet_id.to_le_bytes());
    p.extend_from_slice(&sender_id.to_le_bytes());
    p.extend_from_slice(&[0u8; 8]);
    p.extend_from_slice(body);
    p
}

#[test]
fn request_roundtrip() {
    let bytes = marshal(&RequestPacket, 77).unwrap();
    assert_eq!(bytes, frame(plain(0, 77, &[])));
    let (packet, sender) = unmarshal(&bytes).unwrap();
    assert_eq!(sender, 77);
    assert!(matches!(packet, DiscoveryPacket::Request(_)));
}

#[test]
fn response_roundtrip_and_hex_body() {
    let response = ResponsePacket::new(vec![0xab, 0x01, 0xff]);
    let mut body = Vec::new();
    response.write(&mut body).unwrap();
    assert_eq!(body, b"\x06\x00\x00\x00ab01ff".to_vec());

    let bytes = marshal(&response, 5).unwrap();
    assert_eq!(bytes, frame(plain(1, 5, &body)));
    let (packet, sender) = unmarshal(&bytes).unwrap();
    assert_eq!(sender, 5);
    match packet {
        DiscoveryPacket::Response(r) => assert_eq!(r.application_data, vec![0xab, 0x01, 0xff]),
        _ => panic!("expected a response"),
    }
}

#[test]
fn message_roundtrip_and_body() {
    let message = MessagePacket::new(0x1122, "hé".to_string());
    let mut body = Vec::new();
    message.write(&mut body).unwrap();
    assert_eq!(
        body,
        vec![0x22, 0x11, 0, 0, 0, 0, 0, 0, 3, 0, 0, 0, b'h', 195, 169]
    );
    let bytes = marshal(&message, u64::MAX).unwrap();
    let (packet, sender) = unmarshal(&bytes).unwrap();
    assert_eq!(sender, u64::MAX);
    match packet {
        DiscoveryPacket::Message(m) => {
            assert_eq!(m.recipient_id, 0x1122);
            assert_eq!(m.data, "hé");
        }
        _ => panic!("expected a message"),
    }
}

#[test]
fn discovery_packet_remarshals() {
    let bytes = marshal(&ResponsePacket::new(b"server".to_vec()), 9).unwrap();
    let (packet, _) = unmarshal(&bytes).unwrap();
    assert_eq!(packet.id(), 1);
    let again = marshal(&packet, 9).unwrap();
    assert_eq!(again, bytes);
}

#[test]
fn marshal_refuses_oversized_packet() {
    // 20 bytes of length and header, 4 of hex length, 2 * 40000 of hex.
    let response = ResponsePacket::new(vec![0u8; 40000]);
    assert_eq!(marshal(&response, 1), Err(NethernetError::MessageTooLarge(80024)));
    // The largest response that fits.
    let fits = ResponsePacket::new(vec![0u8; (65535 - 24) / 2]);
    let bytes = marshal(&fits, 1).unwrap();
    assert!(unmarshal(&bytes).is_ok());
}

#[test]
fn unmarshal_refuses_short_packet() {
    assert_eq!(unmarshal(&[0u8; 31]).err(), Some(other("packet too short")));
}

#[test]
fn unmarshal_refuses_bad_encrypted_length() {
    assert_eq!(unmarshal(&[0u8; 32]).err(), Some(other("Invalid encrypted data length")));
    assert_eq!(unmarshal(&[0u8; 40]).err(), Some(other("Invalid encrypted data length")));
}

#[test]
fn unmarshal_refuses_changed_checksum() {
    let mut bytes = marshal(&RequestPacket, 3).unwrap();
    bytes[0] ^= 1;
    assert_eq!(unmarshal(&bytes).err(), Some(other("checksum mismatch")));
}

#[test]
fn unmarshal_refuses_unknown_packet_id() {
    let bytes = frame(plain(7, 1, &[]));
    assert_eq!(unmarshal(&bytes).err(), Some(other("unknown packet ID: 7")));
}

#[test]
fn unmarshal_refuses_trailing_data() {
    let bytes = frame(plain(0, 1, &[1, 2, 3]));
    assert_eq!(
        unmarshal(&bytes).err(),
        Some(other("trailing data in packet: 3 remaining bytes out of 23 total payload bytes"))
    );
}

#[test]
fn unmarshal_refuses_truncated_payload() {
    let bytes = frame(vec![1, 2, 3]);
    assert_eq!(unmarshal(&bytes).err(), Some(NethernetError::UnexpectedEof));
}

#[test]
fn unmarshal_refuses_bad_hex() {
    let bytes = frame(plain(1, 1, b"\x02\x00\x00\x00zz"));
    assert_eq!(
        unmarshal(&bytes).err(),
        Some(other("hex decode error: Invalid character 'z' at position 0"))
    );
    let bytes = frame(plain(1, 1, b"\x03\x00\x00\x00abc"));
    assert_eq!(unmarshal(&bytes).err(), Some(other("hex decode error: Odd number of digits")));
    let bytes = frame(plain(1, 1, b"\x02\x00\x00\x00aG"));
    assert_eq!(
        unmarshal(&bytes).err(),
        Some(other("hex decode error: Invalid character 'G' at position 1"))
    );
}

#[test]
fn unmarshal_accepts_upper_case_hex() {
    let bytes = frame(plain(1, 1, b"\x04\x00\x00\x00ABcd"));
    let (packet, _) = unmarshal(&bytes).unwrap();
    match packet {
        DiscoveryPacket::Response(r) => assert_eq!(r.application_data, vec![0xab, 0xcd]),
        _ => panic!("expected a response"),
    }
}

#[test]
fn unmarshal_refuses_invalid_utf8() {
    let mut body = vec![0u8; 8];
    body.extend_from_slice(&[2, 0, 0, 0, 0xc3, 0x28]);
    let bytes = frame(plain(2, 1, &body));
    assert_eq!(unmarshal(&bytes).err(), Some(other("invalid UTF-8: invalid utf-8 sequence of 1 bytes from index 0")));
}

#[test]
fn packet_ids() {
    assert_eq!(RequestPacket.id(), 0);
    assert_eq!(ResponsePacket::new(Vec::new()).id(), 1);
    assert_eq!(MessagePacket::new(1, String::new()).id(), 2);
}

#[test]
fn frame_lengths() {
    assert_eq!(marshal(&RequestPacket, 0).unwrap().len(), 64);
    assert_eq!(marshal(&MessagePacket::new(7, String::new()), 1).unwrap().len(), 80);
}

#[test]
fn failed_message_read_keeps_recipient() {
    let mut data = 9u64.to_le_bytes().to_vec();
    data.extend_from_slice(&[2, 0, 0, 0, 0xc3, 0x28]);
    let mut m = MessagePacket::new(1, "old".to_string());
    assert_eq!(m.read(&data, 0), Err(other("invalid UTF-8: invalid utf-8 sequence of 1 bytes from index 0")));
    assert_eq!(m.recipient_id, 9);
    assert_eq!(m.data, "old");
    let mut short = MessagePacket::new(1, "old".to_string());
    assert_eq!(short.read(&data[..4], 0), Err(NethernetError::UnexpectedEof));
    assert_eq!(short.recipient_id, 1);
}
