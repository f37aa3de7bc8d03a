//! Hexadecimal and Base64 codecs.
//!
//! The hex functions of the `hex` crate are specified exactly (their behaviour
//! fits in a few lines); Base64 decoding is named, since the `base64` crate's
//! rules on padding and trailing bits take pages to state.
use vstd::prelude::*;
use crate::text::{all_hex_digits, is_hex_digit};
use vstd::utf8::encode_utf8;

verus! {

/// The value of an ASCII hexadecimal digit.
pub open spec fn hex_value(c: char) -> int {
    if '0' <= c && c <= '9' {
        c as int - '0' as int
    } else if 'a' <= c && c <= 'f' {
        c as int - 'a' as int + 10
    } else {
        c as int - 'A' as int + 10
    }
}

/// The lowercase hexadecimal digit for a value below 16.
pub open spec fn hex_char(n: int) -> char {
    if n < 10 {
        (n + '0' as int) as char
    } else {
        (n - 10 + 'a' as int) as char
    }
}

/// Lowercase hexadecimal text of `data`: two digits per byte, high nibble first.
pub open spec fn hex_encode_spec(data: Seq<u8>) -> Seq<char> {
    Seq::new(
        2 * data.len(),
        |i: int|
            if i % 2 == 0 {
                hex_char(data[i / 2] as int / 16)
            } else {
                hex_char(data[i / 2] as int % 16)
            },
    )
}

/// The bytes that hexadecimal text `s` stands for, or `None` when `s` has an odd
/// number of characters or a character that is not a hexadecimal digit
/// (capital and small letters are both accepted).
pub open spec fn hex_decode_spec(s: Seq<char>) -> Option<Seq<u8>> {
    if s.len() % 2 == 0 && all_hex_digits(s) {
        Some(Seq::new((s.len() / 2) as nat, |i: int| (16 * hex_value(s[2 * i]) + hex_value(s[2 * i + 1])) as u8))
    } else {
        None
    }
}

/// Calls `hex::encode`: lowercase hexadecimal text of `data`, two digits per
/// byte, high nibble first (the crate's `HEX_CHARS_LOWER` table).
#[verifier::external_body]
pub(crate) fn hex_encode(data: &[u8]) -> (r: String)
    ensures
        r@ == hex_encode_spec(data@),
{
    hex::encode(data)
}

/// Calls `hex::decode` on the UTF-8 bytes of `text`. The crate decodes pairs of
/// digits `0-9`, `a-f`, `A-F` and fails on an odd byte count or on any other
/// byte; a character outside ASCII always yields such a byte, so the outcome is
/// as `hex_decode_spec` states over the characters. The error is dropped.
#[verifier::external_body]
pub(crate) fn hex_decode(text: &str) -> (r: Option<Vec<u8>>)
    ensures
        r.deep_view() == hex_decode_spec(text@),
{
    hex::decode(text).ok()
}

/// Decoding the hexadecimal text of any bytes gives those bytes back.
pub proof fn hex_roundtrip(data: Seq<u8>)
    ensures
        hex_decode_spec(hex_encode_spec(data)) == Some(data),
{
    let t = hex_encode_spec(data);
    assert forall|i: int| 0 <= i < t.len() implies #[trigger] is_hex_digit(t[i]) && hex_value(t[i]) == (
    if i % 2 == 0 {
        data[i / 2] as int / 16
    } else {
        data[i / 2] as int % 16
    }) by {
        let n = if i % 2 == 0 {
            data[i / 2] as int / 16
        } else {
            data[i / 2] as int % 16
        };
        assert(0 <= n < 16);
        assert(t[i] == hex_char(n));
    }
    let d = hex_decode_spec(t).unwrap();
    assert forall|i: int| 0 <= i < data.len() implies d[i] == data[i] by {
        assert(t[2 * i] == hex_char(data[i] as int / 16));
        assert((2 * i) / 2 == i && (2 * i + 1) / 2 == i);
        assert((2 * i) % 2 == 0 && (2 * i + 1) % 2 == 1);
        assert(16 * (data[i] as int / 16) + data[i] as int % 16 == data[i] as int);
    }
    assert(d =~= data);
}

} // verus!

verus! {

/// What `base64::engine::general_purpose::STANDARD` decodes `input` to, or
/// `None` where it reports an error.
pub uninterp spec fn base64_standard_decoded(input: Seq<u8>) -> Option<Seq<u8>>;

/// What `base64::engine::general_purpose::URL_SAFE_NO_PAD` decodes `input` to,
/// or `None` where it reports an error.
pub uninterp spec fn base64_url_no_pad_decoded(input: Seq<u8>) -> Option<Seq<u8>>;

#[verifier::external_type_specification]
#[verifier::external_body]
pub struct ExDecodeError(base64::DecodeError);

/// Calls `Engine::decode` of `base64::engine::general_purpose::STANDARD` (standard
/// alphabet, padding required). Claimed: the outcome is a function of the input
/// bytes alone, named `base64_standard_decoded`; nothing more is stated of it.
#[verifier::external_body]
pub(crate) fn base64_standard_decode(input: &[u8]) -> (r: Result<Vec<u8>, base64::DecodeError>)
    ensures
        r is Ok <==> base64_standard_decoded(input@) is Some,
        r matches Ok(v) ==> base64_standard_decoded(input@) == Some(v@),
{
    base64::Engine::decode(&base64::engine::general_purpose::STANDARD, input)
}

/// Calls `Engine::decode` of `base64::engine::general_purpose::URL_SAFE_NO_PAD`
/// (URL-safe alphabet, no padding). Claimed: the outcome is a function of the
/// input bytes alone, named `base64_url_no_pad_decoded`; nothing more is stated.
#[verifier::external_body]
pub(crate) fn base64_url_no_pad_decode(input: &[u8]) -> (r: Result<Vec<u8>, base64::DecodeError>)
    ensures
        r is Ok <==> base64_url_no_pad_decoded(input@) is Some,
        r matches Ok(v) ==> base64_url_no_pad_decoded(input@) == Some(v@),
{
    base64::Engine::decode(&base64::engine::general_purpose::URL_SAFE_NO_PAD, input)
}

/// What `base64::engine::general_purpose::STANDARD` encodes `data` to.
pub uninterp spec fn base64_standard_encoded(data: Seq<u8>) -> Seq<char>;

/// Calls `Engine::encode` of `base64::engine::general_purpose::STANDARD`
/// (standard alphabet, with padding). Claimed: the text is a function of the
/// bytes alone, named `base64_standard_encoded`, and decoding its UTF-8 bytes
/// with the same engine gives the bytes back (the round trip the crate
/// documents); the alphabet and padding are not stated.
#[verifier::external_body]
pub(crate) fn base64_standard_encode(data: &[u8]) -> (r: String)
    ensures
        r@ == base64_standard_encoded(data@),
        base64_standard_decoded(encode_utf8(r@)) == Some(data@),
{
    base64::Engine::encode(&base64::engine::general_purpose::STANDARD, data)
}

} // verus!
