//! Encryption and checksums of discovery packets: AES-256 in ECB mode with
//! PKCS#7 padding, and HMAC-SHA256, both keyed with the SHA-256 digest of
//! `0xdeadbeef` as a little-endian `u64`.

use crate::codec::{le_u64, write_u64_le};
use crate::error::{describes, ErrorKind, NethernetError};
use vstd::string::*;
use aes::cipher::generic_array::GenericArray;
use aes::cipher::{BlockDecrypt, BlockEncrypt, KeyInit};
use aes::Aes256;
use hmac::{Hmac, Mac};
use sha2::{Digest, Sha256};
use vstd::prelude::*;
use vstd::slice::*;

verus! {

/// The SHA-256 digest of `data`, as `sha2::Sha256` computes it.
pub uninterp spec fn sha256_digest(data: Seq<u8>) -> Seq<u8>;

/// The HMAC-SHA256 tag of `data` under `key`, as `hmac::Hmac<Sha256>` computes it.
pub uninterp spec fn hmac_sha256_tag(key: Seq<u8>, data: Seq<u8>) -> Seq<u8>;

/// One AES-256 block encryption of `block` under `key`, as `aes::Aes256` computes it.
pub uninterp spec fn aes256_encrypt_block(key: Seq<u8>, block: Seq<u8>) -> Seq<u8>;

/// One AES-256 block decryption of `block` under `key`, as `aes::Aes256` computes it.
pub uninterp spec fn aes256_decrypt_block(key: Seq<u8>, block: Seq<u8>) -> Seq<u8>;

/// Calls `sha2::Sha256::digest`. Claimed: the result is the digest named
/// `sha256_digest` of the input, and it is 32 bytes long.
#[verifier::external_body]
fn sha256(data: &[u8]) -> (r: Vec<u8>)
    ensures
        r@ == sha256_digest(data@),
        r@.len() == 32,
{
    Sha256::digest(data).to_vec()
}

/// Calls `Hmac::<Sha256>::new_from_slice`, `update` and `finalize`. Claimed:
/// the 32 bytes returned are the tag named `hmac_sha256_tag` of `data` under
/// `key`. The source shows that `new_from_slice` accepts a key of any length.
#[verifier::external_body]
fn hmac_sha256(key: &[u8], data: &[u8]) -> (r: [u8; 32])
    ensures
        r@ == hmac_sha256_tag(key@, data@),
{
    let mut mac = <Hmac<Sha256> as Mac>::new_from_slice(key).expect("HMAC takes a key of any size");
    mac.update(data);
    mac.finalize().into_bytes().into()
}

/// Calls `Hmac::<Sha256>::new_from_slice`, `update` and `verify_slice`.
/// Claimed: `verify_slice` succeeds exactly when `tag` equals the tag of
/// `data` under `key` (the source compares the lengths, then the bytes in
/// constant time).
#[verifier::external_body]
fn hmac_sha256_verify(key: &[u8], data: &[u8], tag: &[u8]) -> (r: bool)
    ensures
        r == (hmac_sha256_tag(key@, data@) == tag@),
{
    let mut mac = <Hmac<Sha256> as Mac>::new_from_slice(key).expect("HMAC takes a key of any size");
    mac.update(data);
    mac.verify_slice(tag).is_ok()
}

/// Calls `Aes256::new` and `encrypt_block` on one 16-byte block. Claimed:
/// the result is the block named `aes256_encrypt_block`, 16 bytes long, and
/// block decryption under the same key gives the input back (AES is a
/// permutation of blocks for each key).
#[verifier::external_body]
fn aes256_encrypt(key: &[u8], block: &[u8]) -> (r: Vec<u8>)
    requires
        key@.len() == 32,
        block@.len() == 16,
    ensures
        r@ == aes256_encrypt_block(key@, block@),
        r@.len() == 16,
        aes256_decrypt_block(key@, r@) == block@,
{
    let cipher = Aes256::new(GenericArray::from_slice(key));
    let mut b = GenericArray::clone_from_slice(block);
    cipher.encrypt_block(&mut b);
    b.to_vec()
}

/// Calls `Aes256::new` and `decrypt_block` on one 16-byte block. Claimed:
/// the result is the block named `aes256_decrypt_block`, 16 bytes long, and
/// block encryption under the same key gives the input back.
#[verifier::external_body]
fn aes256_decrypt(key: &[u8], block: &[u8]) -> (r: Vec<u8>)
    requires
        key@.len() == 32,
        block@.len() == 16,
    ensures
        r@ == aes256_decrypt_block(key@, block@),
        r@.len() == 16,
        aes256_encrypt_block(key@, r@) == block@,
{
    let cipher = Aes256::new(GenericArray::from_slice(key));
    let mut b = GenericArray::clone_from_slice(block);
    cipher.decrypt_block(&mut b);
    b.to_vec()
}

/// The size of an AES block.
pub const BLOCK_SIZE: usize = 16;

/// The key of the discovery protocol: the SHA-256 digest of `0xdeadbeef`
/// written as a little-endian `u64`.
pub open spec fn encryption_key() -> Seq<u8> {
    sha256_digest(le_u64(0xdeadbeef))
}

/// Computes the key of the discovery protocol.
pub fn derive_encryption_key() -> (r: Vec<u8>)
    ensures
        r@ == encryption_key(),
        r@.len() == 32,
{
    let mut seed: Vec<u8> = Vec::new();
    write_u64_le(&mut seed, 0xdeadbeef);
    assert(seed@ =~= le_u64(0xdeadbeef));
    sha256(seed.as_slice())
}

/// ECB encryption: each whole 16-byte block encrypted on its own, in order.
pub open spec fn ecb_encrypt(key: Seq<u8>, data: Seq<u8>) -> Seq<u8>
    decreases data.len(),
{
    if data.len() < 16 {
        Seq::empty()
    } else {
        aes256_encrypt_block(key, data.take(16)) + ecb_encrypt(key, data.skip(16))
    }
}

/// ECB decryption: each whole 16-byte block decrypted on its own, in order.
pub open spec fn ecb_decrypt(key: Seq<u8>, data: Seq<u8>) -> Seq<u8>
    decreases data.len(),
{
    if data.len() < 16 {
        Seq::empty()
    } else {
        aes256_decrypt_block(key, data.take(16)) + ecb_decrypt(key, data.skip(16))
    }
}

/// The number of padding bytes PKCS#7 adds to `n` bytes: 1 to 16.
pub open spec fn pkcs7_pad_len(n: nat) -> nat {
    (16 - n % 16) as nat
}

/// PKCS#7 padding to a whole number of 16-byte blocks: `k` bytes of value `k`.
pub open spec fn pkcs7_pad(data: Seq<u8>) -> Seq<u8> {
    let k = pkcs7_pad_len(data.len());
    data + Seq::new(k, |i: int| k as u8)
}

/// Whether `data` ends in valid PKCS#7 padding: its last byte `k` is 1 to
/// 16, and the last `k` bytes all equal `k`.
pub open spec fn pkcs7_valid(data: Seq<u8>) -> bool {
    &&& data.len() > 0
    &&& 0 < data.last() <= 16
    &&& data.last() <= data.len()
    &&& forall|i: int| data.len() - data.last() <= i < data.len() ==> data[i] == data.last()
}

/// `data` with its PKCS#7 padding removed.
pub open spec fn pkcs7_unpad(data: Seq<u8>) -> Seq<u8> {
    data.take(data.len() - data.last())
}

/// What decrypting an encrypted payload gives: its plaintext, or why it has none.
pub open spec fn decrypt_payload(data: Seq<u8>) -> Result<Seq<u8>, ErrorKind> {
    if data.len() == 0 || data.len() % 16 != 0 {
        Err(ErrorKind::InvalidEncryptedLength)
    } else if pkcs7_valid(ecb_decrypt(encryption_key(), data)) {
        Ok(pkcs7_unpad(ecb_decrypt(encryption_key(), data)))
    } else {
        Err(ErrorKind::InvalidPadding)
    }
}

/// Padding then unpadding gives the data back, and the padding is valid
/// and fills whole blocks.
pub proof fn lemma_pkcs7_roundtrip(data: Seq<u8>)
    ensures
        pkcs7_pad(data).len() % 16 == 0,
        pkcs7_pad(data).len() > 0,
        pkcs7_valid(pkcs7_pad(data)),
        pkcs7_unpad(pkcs7_pad(data)) == data,
{
    let p = pkcs7_pad(data);
    let k = pkcs7_pad_len(data.len());
    assert(p.len() == data.len() + k);
    assert(p.last() == k as u8);
    assert(pkcs7_unpad(p) =~= data);
}

/// PKCS#7 padding of any data keeps the data, then adds between 1 and 16
/// bytes up to a whole number of blocks, each of which equals the number
/// of bytes added (sixteen bytes of 16 when the data already fills whole
/// blocks).
pub proof fn lemma_pkcs7_pad_shape(data: Seq<u8>)
    ensures
        ({
            let p = pkcs7_pad(data);
            let k = p.len() - data.len();
            &&& 1 <= k <= 16
            &&& p.len() % 16 == 0
            &&& p.take(data.len() as int) == data
            &&& forall|i: int| data.len() <= i < p.len() ==> p[i] == k
        }),
{
    let p = pkcs7_pad(data);
    assert(p.take(data.len() as int) =~= data);
}

/// A payload decrypts only when its decrypted bytes end in PKCS#7 padding:
/// the plaintext is what is left after removing between 1 and 16 bytes,
/// and each removed byte equals the number of bytes removed.
pub proof fn lemma_decrypt_checks_padding(data: Seq<u8>)
    ensures
        decrypt_payload(data) matches Ok(p) ==> ({
            let q = ecb_decrypt(encryption_key(), data);
            let k = q.len() - p.len();
            &&& 1 <= k <= 16
            &&& q.take(p.len() as int) == p
            &&& forall|i: int| p.len() <= i < q.len() ==> q[i] == k
        }),
{
    if decrypt_payload(data) is Ok {
        let q = ecb_decrypt(encryption_key(), data);
        let p = pkcs7_unpad(q);
        assert(p.len() == q.len() - q.last());
        assert(q.take(p.len() as int) =~= p);
    }
}

/// Every whole number of blocks whose decryption ends in PKCS#7 padding
/// (between 1 and 16 bytes that each equal their number) decrypts, to the
/// decrypted bytes without that padding.
pub proof fn lemma_decrypt_accepts_padding(data: Seq<u8>, k: int)
    requires
        data.len() > 0,
        data.len() % 16 == 0,
        1 <= k <= 16,
        k <= ecb_decrypt(encryption_key(), data).len(),
        forall|i: int|
            ecb_decrypt(encryption_key(), data).len() - k <= i < ecb_decrypt(
                encryption_key(),
                data,
            ).len() ==> #[trigger] ecb_decrypt(encryption_key(), data)[i] == k,
    ensures
        decrypt_payload(data) == Ok::<Seq<u8>, ErrorKind>(
            ecb_decrypt(encryption_key(), data).take(ecb_decrypt(encryption_key(), data).len() - k),
        ),
{
    let q = ecb_decrypt(encryption_key(), data);
    assert(q[q.len() - 1] == k);
    assert(q.last() == k);
}

/// ECB decryption of a concatenation splits at a block boundary.
pub proof fn lemma_ecb_decrypt_append(key: Seq<u8>, a: Seq<u8>, b: Seq<u8>)
    requires
        a.len() % 16 == 0,
    ensures
        ecb_decrypt(key, a + b) == ecb_decrypt(key, a) + ecb_decrypt(key, b),
    decreases a.len(),
{
    if a.len() == 0 {
        assert(a + b =~= b);
        assert(ecb_decrypt(key, a) + ecb_decrypt(key, b) =~= ecb_decrypt(key, b));
    } else {
        assert((a + b).take(16) =~= a.take(16));
        assert((a + b).skip(16) =~= a.skip(16) + b);
        lemma_ecb_decrypt_append(key, a.skip(16), b);
        assert(ecb_decrypt(key, a + b) =~= ecb_decrypt(key, a) + ecb_decrypt(key, b));
    }
}

/// ECB encryption of a concatenation splits at a block boundary.
pub proof fn lemma_ecb_encrypt_append(key: Seq<u8>, a: Seq<u8>, b: Seq<u8>)
    requires
        a.len() % 16 == 0,
    ensures
        ecb_encrypt(key, a + b) == ecb_encrypt(key, a) + ecb_encrypt(key, b),
    decreases a.len(),
{
    if a.len() == 0 {
        assert(a + b =~= b);
        assert(ecb_encrypt(key, a) + ecb_encrypt(key, b) =~= ecb_encrypt(key, b));
    } else {
        assert((a + b).take(16) =~= a.take(16));
        assert((a + b).skip(16) =~= a.skip(16) + b);
        lemma_ecb_encrypt_append(key, a.skip(16), b);
        assert(ecb_encrypt(key, a + b) =~= ecb_encrypt(key, a) + ecb_encrypt(key, b));
    }
}

/// One block through the ECB specs.
proof fn lemma_ecb_one_block(key: Seq<u8>, blk: Seq<u8>)
    requires
        blk.len() == 16,
    ensures
        ecb_encrypt(key, blk) == aes256_encrypt_block(key, blk),
        ecb_decrypt(key, blk) == aes256_decrypt_block(key, blk),
{
    assert(blk.take(16) =~= blk);
    assert(blk.skip(16).len() == 0);
    assert(ecb_encrypt(key, blk.skip(16)) == Seq::<u8>::empty());
    assert(ecb_decrypt(key, blk.skip(16)) == Seq::<u8>::empty());
    assert(ecb_encrypt(key, blk) =~= aes256_encrypt_block(key, blk));
    assert(ecb_decrypt(key, blk) =~= aes256_decrypt_block(key, blk));
}

/// Encrypts whole blocks; the result decrypts back to the input.
fn ecb_encrypt_blocks(key: &[u8], data: &[u8]) -> (r: Vec<u8>)
    requires
        key@.len() == 32,
        data@.len() % 16 == 0,
    ensures
        r@ == ecb_encrypt(key@, data@),
        ecb_decrypt(key@, r@) == data@,
        r@.len() == data@.len(),
{
    let n = data.len();
    let mut out: Vec<u8> = Vec::new();
    let mut i: usize = 0;
    while i < n
        invariant
            n == data@.len(),
            n % 16 == 0,
            i % 16 == 0,
            i <= n,
            key@.len() == 32,
            out@ == ecb_encrypt(key@, data@.take(i as int)),
            ecb_decrypt(key@, out@) == data@.take(i as int),
            out@.len() == i,
        decreases n - i,
    {
        let blk = slice_subrange(data, i, i + 16);
        let mut e = aes256_encrypt(key, blk);
        proof {
            lemma_ecb_one_block(key@, blk@);
            lemma_ecb_one_block(key@, e@);
            lemma_ecb_encrypt_append(key@, data@.take(i as int), blk@);
            lemma_ecb_decrypt_append(key@, out@, e@);
            assert(data@.take(i as int) + blk@ =~= data@.take(i + 16));
        }
        out.append(&mut e);
        i = i + 16;
    }
    assert(data@.take(n as int) =~= data@);
    out
}

/// Decrypts whole blocks; the result encrypts back to the input.
fn ecb_decrypt_blocks(key: &[u8], data: &[u8]) -> (r: Vec<u8>)
    requires
        key@.len() == 32,
        data@.len() % 16 == 0,
    ensures
        r@ == ecb_decrypt(key@, data@),
        r@.len() == data@.len(),
{
    let n = data.len();
    let mut out: Vec<u8> = Vec::new();
    let mut i: usize = 0;
    while i < n
        invariant
            n == data@.len(),
            n % 16 == 0,
            i % 16 == 0,
            i <= n,
            key@.len() == 32,
            out@ == ecb_decrypt(key@, data@.take(i as int)),
            out@.len() == i,
        decreases n - i,
    {
        let blk = slice_subrange(data, i, i + 16);
        let mut d = aes256_decrypt(key, blk);
        proof {
            lemma_ecb_one_block(key@, blk@);
            lemma_ecb_decrypt_append(key@, data@.take(i as int), blk@);
            assert(data@.take(i as int) + blk@ =~= data@.take(i + 16));
        }
        out.append(&mut d);
        i = i + 16;
    }
    assert(data@.take(n as int) =~= data@);
    out
}

/// Pads `buf` with PKCS#7 and encrypts it in place with AES-256-ECB under
/// the protocol key. It never fails; decrypting the result gives the input
/// back.
pub fn encrypt(buf: &mut Vec<u8>) -> (r: Result<(), NethernetError>)
    ensures
        r is Ok,
        final(buf)@ == ecb_encrypt(encryption_key(), pkcs7_pad(old(buf)@)),
        final(buf)@.len() == pkcs7_pad(old(buf)@).len(),
        final(buf)@.len() == (old(buf)@.len() / 16 + 1) * 16,
        decrypt_payload(final(buf)@) == Ok::<Seq<u8>, ErrorKind>(old(buf)@),
{
    let key = derive_encryption_key();
    let data_len = buf.len();
    let padding_len = BLOCK_SIZE - data_len % BLOCK_SIZE;
    let ghost k = pkcs7_pad_len(old(buf)@.len());
    let mut j: usize = 0;
    while j < padding_len
        invariant
            padding_len == k,
            1 <= k <= 16,
            j <= padding_len,
            buf@ == old(buf)@ + Seq::new(j as nat, |i: int| k as u8),
        decreases padding_len - j,
    {
        buf.push(padding_len as u8);
        j = j + 1;
        assert(buf@ =~= old(buf)@ + Seq::new(j as nat, |i: int| k as u8));
    }
    assert(buf@ == pkcs7_pad(old(buf)@));
    proof {
        lemma_pkcs7_roundtrip(old(buf)@);
    }
    let enc = ecb_encrypt_blocks(key.as_slice(), buf.as_slice());
    *buf = enc;
    Ok(())
}

/// Decrypts `buf` in place with AES-256-ECB under the protocol key and
/// removes its PKCS#7 padding. An empty buffer, or one that is not a whole
/// number of blocks, is refused unchanged; when the padding is not valid
/// `buf` is left holding the decrypted bytes.
pub fn decrypt(buf: &mut Vec<u8>) -> (r: Result<(), NethernetError>)
    ensures
        match decrypt_payload(old(buf)@) {
            Ok(p) => r is Ok && final(buf)@ == p,
            Err(e) => r matches Err(x) && describes(x, e),
        },
        r is Ok ==> old(buf)@.len() - 16 <= final(buf)@.len() < old(buf)@.len(),
        decrypt_payload(old(buf)@) matches Err(ErrorKind::InvalidEncryptedLength) ==> final(buf)@
            == old(buf)@,
        decrypt_payload(old(buf)@) matches Err(ErrorKind::InvalidPadding) ==> final(buf)@
            == ecb_decrypt(encryption_key(), old(buf)@),
{
    if buf.len() == 0 || buf.len() % BLOCK_SIZE != 0 {
        return Err(NethernetError::Other(String::from_str("Invalid encrypted data length")));
    }
    let key = derive_encryption_key();
    let dec = ecb_decrypt_blocks(key.as_slice(), buf.as_slice());
    *buf = dec;
    let data_len = buf.len();
    let padding_len = buf[data_len - 1];
    if padding_len > 0 && padding_len <= 16 {
        if data_len >= padding_len as usize {
            let padding_start = data_len - padding_len as usize;
            let mut mismatched: u8 = 0;
            let mut i = padding_start;
            while i < data_len
                invariant
                    data_len == buf@.len(),
                    padding_start <= i <= data_len,
                    mismatched == 0 <==> forall|j: int|
                        padding_start <= j < i ==> buf@[j] == padding_len,
                decreases data_len - i,
            {
                let byte = buf[i];
                let m0 = mismatched;
                mismatched = mismatched | (byte ^ padding_len);
                assert((m0 | (byte ^ padding_len)) == 0 <==> (m0 == 0 && byte == padding_len))
                    by (bit_vector);
                i = i + 1;
            }
            if mismatched == 0 {
                buf.truncate(padding_start);
                assert(buf@ =~= pkcs7_unpad(ecb_decrypt(encryption_key(), old(buf)@)));
                return Ok(());
            }
        }
    }
    Err(NethernetError::Other(String::from_str("Invalid padding")))
}

/// The checksum of a discovery payload: its HMAC-SHA256 tag under the
/// protocol key.
pub fn compute_checksum(data: &[u8]) -> (r: [u8; 32])
    ensures
        r@ == checksum_spec(data@),
{
    let key = derive_encryption_key();
    hmac_sha256(key.as_slice(), data)
}

/// The checksum of a payload, as `compute_checksum` gives it.
pub open spec fn checksum_spec(data: Seq<u8>) -> Seq<u8> {
    hmac_sha256_tag(encryption_key(), data)
}

/// Whether `expected` is the checksum of `data`.
pub fn verify_checksum(data: &[u8], expected: &[u8; 32]) -> (r: bool)
    ensures
        r == (checksum_spec(data@) == expected@),
{
    let key = derive_encryption_key();
    hmac_sha256_verify(key.as_slice(), data, expected.as_slice())
}

} // verus!
