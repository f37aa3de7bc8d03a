//! Extraction of the attestation quote from a GCP confidential-VM attestation
//! token. The token is a JWT; its payload carries the TDX quote in Base64.
//!
//! Fetching the token from the metadata server is I/O and happens outside this
//! crate. To see the payload's actual field names on a GCP TDX VM, run:
//!   curl -H "Metadata-Flavor: Google" \
//!     "http://metadata.google.internal/computeMetadata/v1/instance/confidential-computing/attestation-token?nonce=test123" \
//!     | cut -d. -f2 | base64 -d 2>/dev/null | python3 -m json.tool | head -50
use vstd::prelude::*;
use vstd::utf8::encode_utf8;
use crate::encoding::{base64_url_no_pad_decode, base64_url_no_pad_decoded};
use crate::text::{chars_of, push_char, trim, trim_str};

verus! {

/// Error when fetching or decoding a GCP attestation token.
#[derive(Debug)]
pub enum FetchError {
    Request(String),
    Decode(String),
}

impl FetchError {
    /// The message that describes this error.
    pub open spec fn message(&self) -> Seq<char> {
        match self {
            FetchError::Request(s) => "Request failed: "@ + s@,
            FetchError::Decode(s) => "Decode failed: "@ + s@,
        }
    }

    /// The message that describes this error.
    pub fn to_string(&self) -> (m: String)
        ensures
            m@ == self.message(),
    {
        match self {
            FetchError::Request(s) => {
                let mut m = String::from_str("Request failed: ");
                m.append(s.as_str());
                m
            },
            FetchError::Decode(s) => {
                let mut m = String::from_str("Decode failed: ");
                m.append(s.as_str());
                m
            },
        }
    }
}

/// Position `i` holds the first `.` of `t`.
pub open spec fn is_first_dot(t: Seq<char>, i: int) -> bool {
    &&& 0 <= i < t.len()
    &&& t[i] == '.'
    &&& forall|j: int| 0 <= j < i ==> #[trigger] t[j] != '.'
}

/// `t` up to its first `.`, or all of `t` when it has none.
pub open spec fn before_dot(t: Seq<char>) -> Seq<char> {
    if exists|i: int| is_first_dot(t, i) {
        t.take(choose|i: int| is_first_dot(t, i))
    } else {
        t
    }
}

/// The payload segment of a JWT: the text between its first and second `.`
/// (to the end when there is no second), or `None` when it has no `.` at all.
pub open spec fn payload_segment(token: Seq<char>) -> Option<Seq<char>> {
    if exists|i: int| is_first_dot(token, i) {
        Some(before_dot(token.skip((choose|i: int| is_first_dot(token, i)) + 1)))
    } else {
        None
    }
}

/// Index of the first `.` in `t[from..]`, or `t.len()` when there is none.
fn find_dot(t: &Vec<char>, from: usize) -> (r: usize)
    requires
        from <= t@.len(),
    ensures
        from <= r <= t@.len(),
        r < t@.len() ==> is_first_dot(t@.skip(from as int), r - from),
        r == t@.len() ==> !(exists|i: int| is_first_dot(t@.skip(from as int), i)),
{
    let mut i = from;
    while i < t.len()
        invariant
            from <= i <= t@.len(),
            forall|j: int| from <= j < i ==> #[trigger] t@[j] != '.',
        decreases t@.len() - i,
    {
        if t[i] == '.' {
            assert(is_first_dot(t@.skip(from as int), i - from)) by {
                assert forall|j: int| 0 <= j < i - from implies #[trigger] t@.skip(from as int)[j]
                    != '.' by {
                    assert(t@.skip(from as int)[j] == t@[from + j]);
                }
            }
            return i;
        }
        i = i + 1;
    }
    assert forall|k: int| !is_first_dot(t@.skip(from as int), k) by {
        if 0 <= k < t@.len() - from {
            assert(t@.skip(from as int)[k] == t@[from + k]);
        }
    }
    i
}

/// The characters `t[lo..hi]` as a `String`.
fn text_between(t: &Vec<char>, lo: usize, hi: usize) -> (s: String)
    requires
        lo <= hi <= t@.len(),
    ensures
        s@ == t@.subrange(lo as int, hi as int),
{
    let mut s = String::new();
    let mut i = lo;
    while i < hi
        invariant
            lo <= i <= hi <= t@.len(),
            s@ == t@.subrange(lo as int, i as int),
        decreases hi - i,
    {
        push_char(&mut s, t[i]);
        assert(s@ =~= t@.subrange(lo as int, i + 1));
        i = i + 1;
    }
    s
}

/// The payload segment of a JWT (see `payload_segment`) as a `String`.
pub fn jwt_payload_segment(token: &str) -> (r: Option<String>)
    ensures
        r.deep_view() == payload_segment(token@),
{
    let t = chars_of(token);
    let first = find_dot(&t, 0);
    assert(t@.skip(0) =~= t@);
    if first == t.len() {
        return None;
    }
    assert forall|k: int| is_first_dot(t@, k) implies k == first by {
        if k < first {
            assert(t@.skip(0)[k] == t@[k]);
        }
        if k > first {
            assert(t@[first as int] == '.');
        }
    }
    let second = find_dot(&t, first + 1);
    let ghost rest = t@.skip(first + 1);
    if second < t.len() {
        assert forall|k: int| is_first_dot(rest, k) implies k == second - (first + 1) by {
            if k > second - (first + 1) {
                assert(rest[second - (first + 1)] == '.');
            }
        }
        assert(rest.take(second - (first + 1)) =~= t@.subrange(first + 1, second as int));
    } else {
        assert(rest =~= t@.subrange(first + 1, second as int));
    }
    Some(text_between(&t, first + 1, second))
}

/// The JWT must have at least a header and a payload.
pub open spec fn missing_payload_message() -> Seq<char> {
    "JWT must have at least header.payload"@
}

/// Decodes the payload segment of JWT `token` (URL-safe Base64 without
/// padding). The JSON inside is not read here.
pub fn jwt_payload(token: &str) -> (r: Result<Vec<u8>, FetchError>)
    ensures
        match payload_segment(token@) {
            None => r matches Err(FetchError::Decode(m)) && m@ == missing_payload_message(),
            Some(seg) => match base64_url_no_pad_decoded(encode_utf8(seg)) {
                Some(bytes) => r matches Ok(v) && v@ == bytes,
                None => r matches Err(FetchError::Decode(_)),
            },
        },
{
    let payload_b64 = match jwt_payload_segment(token) {
        Some(p) => p,
        None => {
            return Err(FetchError::Decode(String::from_str("JWT must have at least header.payload")));
        },
    };
    match base64_url_no_pad_decode(payload_b64.as_str().as_bytes()) {
        Ok(b) => Ok(b),
        Err(e) => Err(FetchError::Decode(e.to_string())),
    }
}

/// The token's payload names no quote.
pub open spec fn missing_quote_message() -> Seq<char> {
    "JWT payload has no quote/raw_quote; run the curl in this file's doc comment on a CVM to see actual field names (e.g. eat_claims, secboot)"@
}

/// The Base64 quote text that the payload offers: `raw_quote` when present, else `quote`.
pub open spec fn chosen_quote(raw_quote_b64: Option<Seq<char>>, quote_b64: Option<Seq<char>>) -> Option<Seq<char>> {
    match raw_quote_b64 {
        Some(q) => Some(q),
        None => quote_b64,
    }
}

/// The quote bytes from the payload's `raw_quote` or else `quote` field
/// (URL-safe Base64 without padding; retried on the trimmed text when the
/// first attempt fails).
pub fn quote_from_claims(raw_quote_b64: Option<String>, quote_b64: Option<String>) -> (r: Result<Vec<u8>, FetchError>)
    ensures
        match chosen_quote(raw_quote_b64.deep_view(), quote_b64.deep_view()) {
            None => r matches Err(FetchError::Decode(m)) && m@ == missing_quote_message(),
            Some(q) => match base64_url_no_pad_decoded(encode_utf8(q)) {
                Some(bytes) => r matches Ok(v) && v@ == bytes,
                None => match base64_url_no_pad_decoded(encode_utf8(trim(q))) {
                    Some(bytes) => r matches Ok(v) && v@ == bytes,
                    None => r matches Err(FetchError::Decode(_)),
                },
            },
        },
{
    let chosen = match raw_quote_b64 {
        Some(q) => Some(q),
        None => quote_b64,
    };
    let quote = match chosen {
        Some(q) => q,
        None => {
            return Err(
                FetchError::Decode(
                    String::from_str(
                        "JWT payload has no quote/raw_quote; run the curl in this file's doc comment on a CVM to see actual field names (e.g. eat_claims, secboot)",
                    ),
                ),
            );
        },
    };
    match base64_url_no_pad_decode(quote.as_str().as_bytes()) {
        Ok(b) => Ok(b),
        Err(_) => {
            let trimmed = trim_str(quote.as_str());
            match base64_url_no_pad_decode(trimmed.as_str().as_bytes()) {
                Ok(b) => Ok(b),
                Err(e) => Err(FetchError::Decode(e.to_string())),
            }
        },
    }
}

/// Text without any `.`.
pub open spec fn has_no_dot(t: Seq<char>) -> bool {
    forall|i: int| 0 <= i < t.len() ==> #[trigger] t[i] != '.'
}

/// In `h + "." + rest`, with no `.` in `h`, the first `.` is the one after `h`.
proof fn lemma_first_dot_after(h: Seq<char>, rest: Seq<char>)
    requires
        has_no_dot(h),
    ensures
        is_first_dot(h + seq!['.'] + rest, h.len() as int),
        forall|k: int| is_first_dot(h + seq!['.'] + rest, k) ==> k == h.len(),
        (h + seq!['.'] + rest).skip(h.len() as int + 1) == rest,
{
    let t = h + seq!['.'] + rest;
    assert(t[h.len() as int] == '.');
    assert forall|j: int| 0 <= j < h.len() implies #[trigger] t[j] != '.' by {
        assert(t[j] == h[j]);
    }
    assert forall|k: int| is_first_dot(t, k) implies k == h.len() by {
        if k > h.len() {
            assert(t[h.len() as int] == '.');
        }
        if k < h.len() {
            assert(t[k] == h[k]);
        }
    }
    assert(t.skip(h.len() as int + 1) =~= rest);
}

/// The payload of a JWT `header.payload.signature` (or `header.payload`) is
/// the text between the first two dots, whatever follows them; a token
/// without a dot has no payload.
pub proof fn payload_is_second_segment(header: Seq<char>, payload: Seq<char>, tail: Seq<char>)
    requires
        has_no_dot(header),
        has_no_dot(payload),
    ensures
        payload_segment(header + seq!['.'] + payload + seq!['.'] + tail) == Some(payload),
        payload_segment(header + seq!['.'] + payload) == Some(payload),
        payload_segment(header) is None,
{
    let rest1 = payload + seq!['.'] + tail;
    assert(header + seq!['.'] + payload + seq!['.'] + tail =~= header + seq!['.'] + rest1);
    lemma_first_dot_after(header, rest1);
    lemma_first_dot_after(payload, tail);
    assert(rest1.take(payload.len() as int) =~= payload);
    lemma_first_dot_after(header, payload);
    assert forall|k: int| !is_first_dot(payload, k) by {
        if 0 <= k < payload.len() {
            assert(payload[k] != '.');
        }
    }
    assert forall|k: int| !is_first_dot(header, k) by {
        if 0 <= k < header.len() {
            assert(header[k] != '.');
        }
    }
}

} // verus!
