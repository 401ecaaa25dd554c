//! Little-endian integers and length-prefixed byte strings, written to a
//! `Vec<u8>` and read from a byte slice at a position.

use crate::error::{describes, ErrorKind, NethernetError};
use vstd::bytes::*;
use vstd::prelude::*;
use vstd::slice::*;
use vstd::utf8::*;

verus! {

/// The little-endian bytes of a `u16`.
pub open spec fn le_u16(v: u16) -> Seq<u8> {
    spec_u16_to_le_bytes(v)
}

/// The little-endian bytes of a `u32`.
pub open spec fn le_u32(v: u32) -> Seq<u8> {
    spec_u32_to_le_bytes(v)
}

/// The little-endian bytes of a `u64`.
pub open spec fn le_u64(v: u64) -> Seq<u8> {
    spec_u64_to_le_bytes(v)
}

/// The little-endian two's complement bytes of an `i32`.
pub open spec fn le_i32(v: i32) -> Seq<u8> {
    spec_u32_to_le_bytes(v as u32)
}

/// A byte string behind a one-byte length.
pub open spec fn prefixed_u8(b: Seq<u8>) -> Seq<u8> {
    seq![b.len() as u8] + b
}

/// A byte string behind a four-byte little-endian length.
pub open spec fn prefixed_u32(b: Seq<u8>) -> Seq<u8> {
    le_u32(b.len() as u32) + b
}

/// The lengths of the little-endian encodings, and that decoding them gives
/// the value back.
pub proof fn lemma_le_roundtrip()
    ensures
        forall|v: u16|
            #![trigger le_u16(v)]
            le_u16(v).len() == 2 && spec_u16_from_le_bytes(le_u16(v)) == v,
        forall|v: u32|
            #![trigger le_u32(v)]
            le_u32(v).len() == 4 && spec_u32_from_le_bytes(le_u32(v)) == v,
        forall|v: u64|
            #![trigger le_u64(v)]
            le_u64(v).len() == 8 && spec_u64_from_le_bytes(le_u64(v)) == v,
        forall|v: i32|
            #![trigger le_i32(v)]
            le_i32(v).len() == 4 && (spec_u32_from_le_bytes(le_i32(v)) as i32) == v,
{
    lemma_auto_spec_u16_to_from_le_bytes();
    lemma_auto_spec_u32_to_from_le_bytes();
    lemma_auto_spec_u64_to_from_le_bytes();
    assert forall|v: i32| #![trigger le_i32(v)]
        le_i32(v).len() == 4 && (spec_u32_from_le_bytes(le_i32(v)) as i32) == v by {
        let u = v as u32;
        assert(spec_u32_to_le_bytes(u).len() == 4);
        assert(spec_u32_from_le_bytes(spec_u32_to_le_bytes(u)) == u);
        assert((u as i32) == v) by (bit_vector)
            requires
                u == v as u32,
        ;
    }
}

/// The little-endian bytes of one `u32` decode back to it.
pub proof fn lemma_le_u32(v: u32)
    ensures
        le_u32(v).len() == 4,
        spec_u32_from_le_bytes(le_u32(v)) == v,
{
    lemma_le_roundtrip();
}

/// The little-endian bytes of one `u64` decode back to it.
pub proof fn lemma_le_u64(v: u64)
    ensures
        le_u64(v).len() == 8,
        spec_u64_from_le_bytes(le_u64(v)) == v,
{
    lemma_le_roundtrip();
}

/// Appends one byte.
pub fn write_u8(out: &mut Vec<u8>, v: u8)
    ensures
        final(out)@ == old(out)@.push(v),
{
    out.push(v);
}

/// Appends a `u16` in little-endian order.
pub fn write_u16_le(out: &mut Vec<u8>, v: u16)
    ensures
        final(out)@ == old(out)@ + le_u16(v),
{
    let mut b = u16_to_le_bytes(v);
    out.append(&mut b);
}

/// Appends a `u32` in little-endian order.
pub fn write_u32_le(out: &mut Vec<u8>, v: u32)
    ensures
        final(out)@ == old(out)@ + le_u32(v),
{
    let mut b = u32_to_le_bytes(v);
    out.append(&mut b);
}

/// Appends a `u64` in little-endian order.
pub fn write_u64_le(out: &mut Vec<u8>, v: u64)
    ensures
        final(out)@ == old(out)@ + le_u64(v),
{
    let mut b = u64_to_le_bytes(v);
    out.append(&mut b);
}

/// Appends an `i32` in little-endian two's complement.
pub fn write_i32_le(out: &mut Vec<u8>, v: i32)
    ensures
        final(out)@ == old(out)@ + le_i32(v),
{
    let mut b = u32_to_le_bytes(v as u32);
    out.append(&mut b);
}

/// Appends the bytes of `src`.
pub fn write_bytes(out: &mut Vec<u8>, src: &[u8])
    ensures
        final(out)@ == old(out)@ + src@,
{
    let n = src.len();
    let mut i: usize = 0;
    while i < n
        invariant
            n == src@.len(),
            i <= n,
            out@ == old(out)@ + src@.take(i as int),
        decreases n - i,
    {
        out.push(src[i]);
        i = i + 1;
        assert(src@.take(i as int) =~= src@.take(i - 1).push(src@[i - 1]));
    }
    assert(src@.take(n as int) =~= src@);
}

/// Appends `src` behind a one-byte length; a string of more than 255 bytes
/// is refused and nothing is appended.
pub fn write_bytes_u8(out: &mut Vec<u8>, src: &[u8]) -> (r: Result<(), NethernetError>)
    ensures
        src@.len() <= 255 ==> r is Ok && final(out)@ == old(out)@ + prefixed_u8(src@),
        src@.len() > 255 ==> r == Err::<(), NethernetError>(
            NethernetError::BytesTooLong(src@.len() as usize),
        ) && final(out)@ == old(out)@,
{
    if src.len() > 255 {
        return Err(NethernetError::BytesTooLong(src.len()));
    }
    out.push(src.len() as u8);
    write_bytes(out, src);
    assert(prefixed_u8(src@) =~= seq![src@.len() as u8] + src@);
    Ok(())
}

/// Appends `src` behind a four-byte little-endian length; a string of more
/// than `u32::MAX` bytes is refused and nothing is appended.
pub fn write_bytes_u32(out: &mut Vec<u8>, src: &[u8]) -> (r: Result<(), NethernetError>)
    ensures
        src@.len() <= u32::MAX ==> r is Ok && final(out)@ == old(out)@ + prefixed_u32(src@),
        src@.len() > u32::MAX ==> r == Err::<(), NethernetError>(
            NethernetError::BytesTooLong(src@.len() as usize),
        ) && final(out)@ == old(out)@,
{
    if src.len() > 0xffff_ffffusize {
        return Err(NethernetError::BytesTooLong(src.len()));
    }
    write_u32_le(out, src.len() as u32);
    write_bytes(out, src);
    assert(old(out)@ + prefixed_u32(src@) =~= old(out)@ + le_u32(src@.len() as u32) + src@);
    Ok(())
}

/// What reading a value of `n` bytes at `pos` gives: the bytes and the
/// position after them, or the end of the input.
pub open spec fn take_at(s: Seq<u8>, pos: int, n: int) -> Result<(Seq<u8>, int), ErrorKind> {
    if 0 <= pos && 0 <= n && pos + n <= s.len() {
        Ok((s.subrange(pos, pos + n), pos + n))
    } else {
        Err(ErrorKind::UnexpectedEof)
    }
}

/// Reading from a prefix of `b` that succeeds reads the same from `b`.
pub proof fn lemma_take_at_prefix(t: Seq<u8>, b: Seq<u8>)
    requires
        t.len() <= b.len(),
        t == b.take(t.len() as int),
    ensures
        forall|pos: int, n: int| #[trigger]
            take_at(t, pos, n) is Ok ==> take_at(b, pos, n) == take_at(t, pos, n),
{
    assert forall|pos: int, n: int| #[trigger]
        take_at(t, pos, n) is Ok implies take_at(b, pos, n) == take_at(t, pos, n) by {
        assert(t.subrange(pos, pos + n) =~= b.subrange(pos, pos + n));
    }
}

/// Reading one byte at `pos`.
pub open spec fn read_u8_spec(s: Seq<u8>, pos: int) -> Result<(u8, int), ErrorKind> {
    match take_at(s, pos, 1) {
        Ok((b, p)) => Ok((b[0], p)),
        Err(e) => Err(e),
    }
}

/// Reading a little-endian `u16` at `pos`.
pub open spec fn read_u16_spec(s: Seq<u8>, pos: int) -> Result<(u16, int), ErrorKind> {
    match take_at(s, pos, 2) {
        Ok((b, p)) => Ok((spec_u16_from_le_bytes(b), p)),
        Err(e) => Err(e),
    }
}

/// Reading a little-endian `u32` at `pos`.
pub open spec fn read_u32_spec(s: Seq<u8>, pos: int) -> Result<(u32, int), ErrorKind> {
    match take_at(s, pos, 4) {
        Ok((b, p)) => Ok((spec_u32_from_le_bytes(b), p)),
        Err(e) => Err(e),
    }
}

/// Reading a little-endian `u64` at `pos`.
pub open spec fn read_u64_spec(s: Seq<u8>, pos: int) -> Result<(u64, int), ErrorKind> {
    match take_at(s, pos, 8) {
        Ok((b, p)) => Ok((spec_u64_from_le_bytes(b), p)),
        Err(e) => Err(e),
    }
}

/// Reading a little-endian `i32` at `pos`.
pub open spec fn read_i32_spec(s: Seq<u8>, pos: int) -> Result<(i32, int), ErrorKind> {
    match take_at(s, pos, 4) {
        Ok((b, p)) => Ok((spec_u32_from_le_bytes(b) as i32, p)),
        Err(e) => Err(e),
    }
}

/// Reading a byte string behind a one-byte length at `pos`.
pub open spec fn read_bytes_u8_spec(s: Seq<u8>, pos: int) -> Result<(Seq<u8>, int), ErrorKind> {
    match read_u8_spec(s, pos) {
        Ok((n, p)) => take_at(s, p, n as int),
        Err(e) => Err(e),
    }
}

/// Reading a byte string behind a four-byte little-endian length at `pos`.
pub open spec fn read_bytes_u32_spec(s: Seq<u8>, pos: int) -> Result<(Seq<u8>, int), ErrorKind> {
    match read_u32_spec(s, pos) {
        Ok((n, p)) => take_at(s, p, n as int),
        Err(e) => Err(e),
    }
}

/// Reads `n` bytes at `pos`.
pub fn read_bytes(data: &[u8], pos: usize, n: usize) -> (r: Result<(Vec<u8>, usize), NethernetError>)
    ensures
        match take_at(data@, pos as int, n as int) {
            Ok((b, p)) => r matches Ok((v, q)) && v@ == b && q == p,
            Err(e) => r matches Err(x) && describes(x, e),
        },
{
    if pos > data.len() || n > data.len() - pos {
        return Err(NethernetError::UnexpectedEof);
    }
    let v = slice_to_vec(slice_subrange(data, pos, pos + n));
    Ok((v, pos + n))
}

/// Reads one byte at `pos`.
pub fn read_u8(data: &[u8], pos: usize) -> (r: Result<(u8, usize), NethernetError>)
    ensures
        match read_u8_spec(data@, pos as int) {
            Ok((v, p)) => r matches Ok((w, q)) && w == v && q == p,
            Err(e) => r matches Err(x) && describes(x, e),
        },
{
    if pos >= data.len() {
        return Err(NethernetError::UnexpectedEof);
    }
    Ok((data[pos], pos + 1))
}

/// Reads a little-endian `u16` at `pos`.
pub fn read_u16_le(data: &[u8], pos: usize) -> (r: Result<(u16, usize), NethernetError>)
    ensures
        match read_u16_spec(data@, pos as int) {
            Ok((v, p)) => r matches Ok((w, q)) && w == v && q == p,
            Err(e) => r matches Err(x) && describes(x, e),
        },
{
    if pos > data.len() || data.len() - pos < 2 {
        return Err(NethernetError::UnexpectedEof);
    }
    let v = u16_from_le_bytes(slice_subrange(data, pos, pos + 2));
    Ok((v, pos + 2))
}

/// Reads a little-endian `u32` at `pos`.
pub fn read_u32_le(data: &[u8], pos: usize) -> (r: Result<(u32, usize), NethernetError>)
    ensures
        match read_u32_spec(data@, pos as int) {
            Ok((v, p)) => r matches Ok((w, q)) && w == v && q == p,
            Err(e) => r matches Err(x) && describes(x, e),
        },
{
    if pos > data.len() || data.len() - pos < 4 {
        return Err(NethernetError::UnexpectedEof);
    }
    let v = u32_from_le_bytes(slice_subrange(data, pos, pos + 4));
    Ok((v, pos + 4))
}

/// Reads a little-endian `u64` at `pos`.
pub fn read_u64_le(data: &[u8], pos: usize) -> (r: Result<(u64, usize), NethernetError>)
    ensures
        match read_u64_spec(data@, pos as int) {
            Ok((v, p)) => r matches Ok((w, q)) && w == v && q == p,
            Err(e) => r matches Err(x) && describes(x, e),
        },
{
    if pos > data.len() || data.len() - pos < 8 {
        return Err(NethernetError::UnexpectedEof);
    }
    let v = u64_from_le_bytes(slice_subrange(data, pos, pos + 8));
    Ok((v, pos + 8))
}

/// Reads a little-endian `i32` at `pos`.
pub fn read_i32_le(data: &[u8], pos: usize) -> (r: Result<(i32, usize), NethernetError>)
    ensures
        match read_i32_spec(data@, pos as int) {
            Ok((v, p)) => r matches Ok((w, q)) && w == v && q == p,
            Err(e) => r matches Err(x) && describes(x, e),
        },
{
    if pos > data.len() || data.len() - pos < 4 {
        return Err(NethernetError::UnexpectedEof);
    }
    let v = u32_from_le_bytes(slice_subrange(data, pos, pos + 4));
    Ok((v as i32, pos + 4))
}

/// Reads a byte string behind a one-byte length at `pos`.
pub fn read_bytes_u8(data: &[u8], pos: usize) -> (r: Result<(Vec<u8>, usize), NethernetError>)
    ensures
        match read_bytes_u8_spec(data@, pos as int) {
            Ok((b, p)) => r matches Ok((v, q)) && v@ == b && q == p,
            Err(e) => r matches Err(x) && describes(x, e),
        },
{
    match read_u8(data, pos) {
        Ok((n, p)) => {
            read_bytes(data, p, n as usize)
        },
        Err(e) => Err(e),
    }
}

/// Reads a byte string behind a four-byte little-endian length at `pos`.
pub fn read_bytes_u32(data: &[u8], pos: usize) -> (r: Result<(Vec<u8>, usize), NethernetError>)
    ensures
        match read_bytes_u32_spec(data@, pos as int) {
            Ok((b, p)) => r matches Ok((v, q)) && v@ == b && q == p,
            Err(e) => r matches Err(x) && describes(x, e),
        },
{
    match read_u32_le(data, pos) {
        Ok((n, p)) => {
            read_bytes(data, p, n as usize)
        },
        Err(e) => Err(e),
    }
}

/// The text the error of `String::from_utf8` displays for `bytes`.
pub uninterp spec fn utf8_error_text(bytes: Seq<u8>) -> Seq<char>;

/// Calls `String::from_utf8`. Claimed, as std documents it: it succeeds
/// exactly when the bytes are valid UTF-8, and the string then holds the
/// characters they encode; on failure the text the error displays, named
/// `utf8_error_text`, is given.
#[verifier::external_body]
pub fn string_from_utf8(bytes: Vec<u8>) -> (r: Result<String, String>)
    ensures
        r is Ok <==> valid_utf8(bytes@),
        r matches Ok(s) ==> s@ == decode_utf8(bytes@),
        r matches Err(t) ==> t@ == utf8_error_text(bytes@),
{
    match String::from_utf8(bytes) {
        Ok(s) => Ok(s),
        Err(e) => Err(e.to_string()),
    }
}

} // verus!
