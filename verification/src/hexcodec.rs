//! Lower-case hex encoding and hex decoding of byte strings, through the
//! `hex` crate.

use crate::error::HexError;
use crate::text::decimal;
use vstd::prelude::*;

verus! {

/// The lower-case hex digit of a value below 16.
pub open spec fn hex_digit(n: int) -> u8 {
    if n < 10 {
        (48 + n) as u8
    } else {
        (87 + n) as u8
    }
}

/// The value of a hex digit (`0-9`, `a-f`, `A-F`), or none for another byte.
pub open spec fn hex_value(c: u8) -> Option<u8> {
    if 48 <= c <= 57 {
        Some((c - 48) as u8)
    } else if 97 <= c <= 102 {
        Some((c - 87) as u8)
    } else if 65 <= c <= 70 {
        Some((c - 55) as u8)
    } else {
        None
    }
}

/// Lower-case hex: each byte as its high then its low digit.
pub open spec fn hex_encode_spec(data: Seq<u8>) -> Seq<u8>
    decreases data.len(),
{
    if data.len() == 0 {
        Seq::empty()
    } else {
        seq![hex_digit((data[0] / 16) as int), hex_digit((data[0] % 16) as int)] + hex_encode_spec(data.drop_first())
    }
}

/// Decoding digit pairs from the front; `base` is the position of `s[0]` in
/// the whole input, reported with the first byte that is not a hex digit.
pub open spec fn hex_decode_pairs(s: Seq<u8>, base: int) -> Result<Seq<u8>, HexError>
    decreases s.len(),
{
    if s.len() < 2 {
        Ok(Seq::empty())
    } else {
        match hex_value(s[0]) {
            None => Err(HexError::InvalidHexCharacter { c: s[0] as char, index: base as usize }),
            Some(hi) => match hex_value(s[1]) {
                None => Err(
                    HexError::InvalidHexCharacter { c: s[1] as char, index: (base + 1) as usize },
                ),
                Some(lo) => match hex_decode_pairs(s.skip(2), base + 2) {
                    Ok(rest) => Ok(seq![(hi * 16 + lo) as u8] + rest),
                    Err(e) => Err(e),
                },
            },
        }
    }
}

/// What `hex::decode` gives: an odd number of digits is refused, else each
/// pair of digits is one byte, and the first byte that is not a hex digit
/// is refused with its position.
pub open spec fn hex_decode_spec(s: Seq<u8>) -> Result<Seq<u8>, HexError> {
    if s.len() % 2 != 0 {
        Err(HexError::OddLength)
    } else {
        hex_decode_pairs(s, 0)
    }
}

/// Calls `hex::encode`. Claimed: the result is the lower-case hex of `data`,
/// high digit first, as the crate's `byte2hex` over `HEX_CHARS_LOWER` writes it.
#[verifier::external_body]
pub(crate) fn hex_encode(data: &[u8]) -> (r: Vec<u8>)
    ensures
        r@ == hex_encode_spec(data@),
{
    hex::encode(data).into_bytes()
}

/// Calls `hex::decode`, and gives each variant of `hex::FromHexError` as the
/// variant of the same name. Claimed: the result is `hex_decode_spec`, as the
/// crate's `FromHex for Vec<u8>` and `val` compute it.
#[verifier::external_body]
pub(crate) fn hex_decode(data: &[u8]) -> (r: Result<Vec<u8>, HexError>)
    ensures
        match hex_decode_spec(data@) {
            Ok(b) => r matches Ok(v) && v@ == b,
            Err(e) => r == Err::<Vec<u8>, HexError>(e),
        },
{
    match hex::decode(data) {
        Ok(v) => Ok(v),
        Err(hex::FromHexError::InvalidHexCharacter { c, index }) => Err(
            HexError::InvalidHexCharacter { c, index },
        ),
        Err(hex::FromHexError::OddLength) => Err(HexError::OddLength),
        Err(hex::FromHexError::InvalidStringLength) => Err(HexError::InvalidStringLength),
    }
}

/// The text `{:?}` formats a `char` as.
pub uninterp spec fn char_debug_text(c: char) -> Seq<char>;

/// The text `hex::FromHexError` displays.
pub open spec fn hex_error_text(e: HexError) -> Seq<char> {
    match e {
        HexError::InvalidHexCharacter { c, index } => "Invalid character "@ + char_debug_text(c)
            + " at position "@ + decimal(index as nat),
        HexError::OddLength => "Odd number of digits"@,
        HexError::InvalidStringLength => "Invalid string length"@,
    }
}

/// Formats the `hex::FromHexError` of the same variant as `e` with its
/// `Display` impl. Claimed, as the crate's `fmt` writes it: a bad digit is
/// shown as `Invalid character {:?} at position {}` (the `{:?}` of the
/// character being named `char_debug_text`), the other two variants by
/// their fixed texts.
#[verifier::external_body]
pub(crate) fn hex_error_display(e: HexError) -> (r: String)
    ensures
        r@ == hex_error_text(e),
        e matches HexError::InvalidHexCharacter { c, index } ==> r@ == "Invalid character "@
            + char_debug_text(c) + " at position "@ + decimal(index as nat),
{
    let h = match e {
        HexError::InvalidHexCharacter { c, index } => hex::FromHexError::InvalidHexCharacter {
            c,
            index,
        },
        HexError::OddLength => hex::FromHexError::OddLength,
        HexError::InvalidStringLength => hex::FromHexError::InvalidStringLength,
    };
    h.to_string()
}

/// Hex of `n` bytes has `2 * n` digits.
pub proof fn lemma_hex_encode_len(data: Seq<u8>)
    ensures
        hex_encode_spec(data).len() == 2 * data.len(),
    decreases data.len(),
{
    if data.len() > 0 {
        lemma_hex_encode_len(data.drop_first());
    }
}

/// Decoding lower-case hex gives the bytes back, wherever the digits stand.
proof fn lemma_hex_decode_pairs_encode(data: Seq<u8>, base: int)
    ensures
        hex_decode_pairs(hex_encode_spec(data), base) == Ok::<Seq<u8>, HexError>(data),
    decreases data.len(),
{
    if data.len() == 0 {
        assert(hex_encode_spec(data).len() == 0);
        assert(data =~= Seq::<u8>::empty());
    } else {
        let e = hex_encode_spec(data);
        let b = data[0];
        let rest = data.drop_first();
        lemma_hex_encode_len(rest);
        lemma_hex_encode_len(data);
        assert(e.skip(2) =~= hex_encode_spec(rest));
        lemma_hex_decode_pairs_encode(rest, base + 2);
        assert(hex_value(e[0]) == Some((b / 16) as u8));
        assert(hex_value(e[1]) == Some((b % 16) as u8));
        assert((((b / 16) as u8) * 16 + ((b % 16) as u8)) as u8 == b);
        assert(seq![b] + rest =~= data);
        assert(hex_decode_pairs(e, base) == Ok::<Seq<u8>, HexError>(seq![b] + rest));
    }
}

/// Decoding the lower-case hex of any bytes gives them back.
pub proof fn lemma_hex_roundtrip(data: Seq<u8>)
    ensures
        hex_decode_spec(hex_encode_spec(data)) == Ok::<Seq<u8>, HexError>(data),
{
    lemma_hex_encode_len(data);
    lemma_hex_decode_pairs_encode(data, 0);
}

} // verus!
