use nethernet::crypto::derive_encryption_key;
use nethernet::{compute_checksum, decrypt, encrypt, verify_checksum, NethernetError};

fn other(text: &str) -> NethernetError {
    NethernetError::Other(text.to_string())
}

fn from_hex(s: &str) -> Vec<u8> {
    (0..s.len())
        .step_by(2)
        .map(|i| u8::from_str_radix(&s[i..i + 2], 16).unwrap())
        .collect()
}

#[test]
fn test_encrypt_decrypt() {
    let data = b"Hello, NetherNet!";
    let mut buf = data.to_vec();
    encrypt(&mut buf).unwrap();
    decrypt(&mut buf).unwrap();
    assert_eq!(data.as_slice(), buf.as_slice());
}

#[test]
fn test_checksum() {
    let data = b"Test data for checksum";
    let checksum = compute_checksum(data);
    assert!(verify_checksum(data, &checksum));

    let wrong_checksum = [0u8; 32];
    assert!(!verify_checksum(data, &wrong_checksum));
}

#[test]
fn key_is_sha256_of_deadbeef() {
    let key = derive_encryption_key();
    assert_eq!(
        key,
        from_hex("eed4c37861936c6ebb91ab9d195c1b489de46362d3bb8e30d8aab08bf217e6f3")
    );
}

#[test]
fn checksum_is_hmac_sha256_under_the_key() {
    let checksum = compute_checksum(b"Test data for checksum");
    assert_eq!(
        checksum.to_vec(),
        from_hex("1f563ef708b21dc30a03a9566f2d7b0e4cee08b504fb1d371885d9ebf59dd970")
    );
}

#[test]
fn encrypt_pads_and_encrypts_in_ecb() {
    let mut buf = b"Hello, NetherNet!".to_vec();
    encrypt(&mut buf).unwrap();
    assert_eq!(
        buf,
        from_hex("df9214325a3dd13657e87f585185d47058fc0405b5e7ec0cb2ea0c8688a57378")
    );
}

#[test]
fn encrypt_of_whole_block_adds_a_padding_block() {
    let mut buf = vec![7u8; 16];
    encrypt(&mut buf).unwrap();
    assert_eq!(buf.len(), 32);
    decrypt(&mut buf).unwrap();
    assert_eq!(buf, vec![7u8; 16]);
}

#[test]
fn encrypt_of_empty_roundtrips() {
    let mut buf = Vec::new();
    encrypt(&mut buf).unwrap();
    assert_eq!(buf.len(), 16);
    decrypt(&mut buf).unwrap();
    assert!(buf.is_empty());
}

#[test]
fn decrypt_refuses_empty_and_partial_blocks() {
    let mut empty: Vec<u8> = Vec::new();
    assert_eq!(decrypt(&mut empty), Err(other("Invalid encrypted data length")));
    let mut partial = vec![1u8; 15];
    assert_eq!(decrypt(&mut partial), Err(other("Invalid encrypted data length")));
    assert_eq!(partial, vec![1u8; 15]);
}

#[test]
fn decrypt_refuses_bad_padding_and_keeps_plaintext() {
    // The encryption of sixteen zero bytes: its plaintext ends in 0, no padding.
    let mut buf = from_hex("8ef4d404a130dc63d9f9283c79977723");
    assert_eq!(decrypt(&mut buf), Err(other("Invalid padding")));
    assert_eq!(buf, vec![0u8; 16]);
}

#[test]
fn verify_checksum_refuses_a_changed_payload() {
    let checksum = compute_checksum(b"payload");
    assert!(!verify_checksum(b"payloaD", &checksum));
}
