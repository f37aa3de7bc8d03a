//! Parser for attestation quotes.
//!
//! Two formats are understood:
//! - Intel TDX DCAP (48 bytes or more): quote header and TD report; the Platform
//!   ID is at bytes 28..44 (user data), or at bytes 4..20 when those are all zero
//!   (as GCP TDX quotes have them); TCB SVN, MR_TD and report data come from the
//!   TD report when the quote is long enough.
//! - A simplified mock format (16 to 47 bytes): the first 16 bytes are the
//!   Platform ID.
//!
//! The input is hexadecimal text. Surrounding whitespace and any number of
//! leading `0x` are dropped, then all whitespace is removed.
use vstd::prelude::*;
use crate::encoding::{hex_char, hex_decode, hex_decode_spec, hex_encode, hex_encode_spec, hex_value};
use crate::text::{
    all_hex_digits, chars_of, is_ascii_text, is_hex_digit, is_hex_digit_char, is_lower_hex_digit, is_white_space, is_whitespace_char, lower_hex_char,
    ascii_lower_char, ascii_lower_text, lower_hex_letter, lower_hex_text, push_char, remove_whitespace, trim, trim_end, trim_start, trimmed_bounds,
};

verus! {

/// A quote of at least this many bytes is read as DCAP.
pub const HEADER_MIN_LEN: usize = 48;
/// Start of the Platform ID in a DCAP header (user data).
pub const PLATFORM_ID_START: usize = 28;
/// Length of the Platform ID in bytes.
pub const PLATFORM_ID_LEN: usize = 16;
/// Where the Platform ID is read from when the primary location is all zero.
pub const PLATFORM_ID_FALLBACK_START: usize = 4;
/// Start of the TD report body.
pub const TD_REPORT_START: usize = 48;
/// Offset of MR_TD inside the TD report.
pub const MR_TD_OFFSET_IN_TD: usize = 128;
/// Offset of the TCB SVN inside the TD report.
pub const TCB_SVN_OFFSET_IN_TD: usize = 222;
/// Length of MR_TD in bytes.
pub const MR_TD_LEN: usize = 48;
/// Length of the TCB SVN in bytes.
pub const TCB_SVN_LEN: usize = 16;
/// Length of the report data in bytes.
pub const REPORT_DATA_LEN: usize = 64;

/// Errors that can occur during quote parsing.
#[derive(Debug, Clone)]
pub enum ParseError {
    /// Input is not valid hex.
    InvalidHex,
    /// Quote is too short (need at least 16 bytes for Platform ID).
    TooShort,
}

impl ParseError {
    /// The message that describes this error.
    pub open spec fn message(self) -> Seq<char> {
        match self {
            ParseError::InvalidHex => "Invalid hex encoding"@,
            ParseError::TooShort => "Quote too short (need at least 32 hex chars for Platform ID)"@,
        }
    }

    /// The message that describes this error.
    pub fn to_string(&self) -> (s: String)
        ensures
            s@ == self.message(),
    {
        match self {
            ParseError::InvalidHex => String::from_str("Invalid hex encoding"),
            ParseError::TooShort => String::from_str(
                "Quote too short (need at least 32 hex chars for Platform ID)",
            ),
        }
    }
}

/// Mathematical model of a parsed quote.
pub struct QuoteModel {
    pub platform_id_hex: Seq<char>,
    pub tcb_svn: Seq<u8>,
    pub mr_td: Seq<u8>,
    pub report_data: Seq<u8>,
    pub raw: Seq<u8>,
    pub is_dcap_format: bool,
}

/// Parsed attestation quote with extracted Platform ID and DCAP fields.
#[derive(Debug, Clone)]
pub struct ParsedQuote {
    /// Platform ID (16 bytes) as hex string.
    pub platform_id_hex: String,
    /// TCB security version numbers (16 bytes). Zeroed if not DCAP or quote too short.
    pub tcb_svn: [u8; 16],
    /// Measurement of the TD (VM) code, 48 bytes. Zeroed if not DCAP or quote too short.
    pub mr_td: [u8; 48],
    /// Custom report data embedded in quote, 64 bytes. Zeroed if not present.
    pub report_data: [u8; 64],
    /// Raw bytes of the full quote.
    pub raw: Vec<u8>,
    /// Whether this was parsed as DCAP format (vs simplified).
    pub is_dcap_format: bool,
}

impl View for ParsedQuote {
    type V = QuoteModel;

    open spec fn view(&self) -> QuoteModel {
        QuoteModel {
            platform_id_hex: self.platform_id_hex@,
            tcb_svn: self.tcb_svn@,
            mr_td: self.mr_td@,
            report_data: self.report_data@,
            raw: self.raw@,
            is_dcap_format: self.is_dcap_format,
        }
    }
}

/// `s` without any number of leading `0x`.
pub open spec fn strip_hex_prefix(s: Seq<char>) -> Seq<char>
    decreases s.len(),
{
    if s.len() >= 2 && s[0] == '0' && s[1] == 'x' {
        strip_hex_prefix(s.skip(2))
    } else {
        s
    }
}

/// The hexadecimal text of a quote as the parser reads it: surrounding
/// whitespace trimmed, leading `0x` stripped, remaining whitespace removed.
pub open spec fn quote_text(input: Seq<char>) -> Seq<char> {
    remove_whitespace(strip_hex_prefix(trim(input)))
}

/// The error that quote text `t` is rejected with, if any.
pub open spec fn quote_text_error(t: Seq<char>) -> Option<ParseError> {
    if t.len() == 0 || t.len() % 2 != 0 || !all_hex_digits(t) {
        Some(ParseError::InvalidHex)
    } else if t.len() < 32 {
        Some(ParseError::TooShort)
    } else {
        None
    }
}

/// `n` zero bytes.
pub open spec fn zeros(n: nat) -> Seq<u8> {
    Seq::new(n, |i: int| 0u8)
}

/// The `n` bytes of `bytes` from `start` on, zero where `bytes` ends early.
pub open spec fn window(bytes: Seq<u8>, start: int, n: nat) -> Seq<u8> {
    Seq::new(n, |i: int| if start + i < bytes.len() { bytes[start + i] } else { 0u8 })
}

/// Every byte of `s` is zero.
pub open spec fn all_zero(s: Seq<u8>) -> bool {
    forall|i: int| 0 <= i < s.len() ==> #[trigger] s[i] == 0
}

/// The Platform ID of a DCAP quote: bytes 28..44, or bytes 4..20 when those are all zero.
pub open spec fn dcap_platform_id(bytes: Seq<u8>) -> Seq<u8> {
    let primary = window(bytes, PLATFORM_ID_START as int, PLATFORM_ID_LEN as nat);
    if all_zero(primary) {
        window(bytes, PLATFORM_ID_FALLBACK_START as int, PLATFORM_ID_LEN as nat)
    } else {
        primary
    }
}

/// The quote that accepted quote text `t` stands for.
pub open spec fn quote_model(t: Seq<char>) -> QuoteModel {
    let bytes = hex_decode_spec(t).unwrap();
    if bytes.len() >= HEADER_MIN_LEN {
        QuoteModel {
            platform_id_hex: hex_encode_spec(dcap_platform_id(bytes)),
            tcb_svn: if bytes.len() >= 286 {
                window(bytes, 270, 16)
            } else {
                zeros(16)
            },
            mr_td: if bytes.len() >= 224 {
                window(bytes, 176, 48)
            } else {
                zeros(48)
            },
            report_data: if bytes.len() >= 288 {
                window(bytes, 224, 64)
            } else {
                zeros(64)
            },
            raw: bytes,
            is_dcap_format: true,
        }
    } else {
        QuoteModel {
            platform_id_hex: lower_hex_text(t.take(32)),
            tcb_svn: zeros(16),
            mr_td: zeros(48),
            report_data: zeros(64),
            raw: bytes,
            is_dcap_format: false,
        }
    }
}

/// What parsing quote text `t` gives.
pub open spec fn parse_text(t: Seq<char>) -> Result<QuoteModel, ParseError> {
    match quote_text_error(t) {
        Some(e) => Err(e),
        None => Ok(quote_model(t)),
    }
}

/// What `parse_quote` gives for input text `input`.
pub open spec fn parse_quote_spec(input: Seq<char>) -> Result<QuoteModel, ParseError> {
    parse_text(quote_text(input))
}

/// A Platform ID as the parser reports it: 32 lowercase hexadecimal digits.
pub open spec fn is_platform_id_text(s: Seq<char>) -> bool {
    s.len() == 32 && forall|i: int| 0 <= i < s.len() ==> #[trigger] is_lower_hex_digit(s[i])
}

/// Hexadecimal text of any bytes is made of lowercase hexadecimal digits, two per byte.
pub proof fn lemma_hex_encode_lower(data: Seq<u8>)
    ensures
        hex_encode_spec(data).len() == 2 * data.len(),
        forall|i: int|
            0 <= i < hex_encode_spec(data).len() ==> #[trigger] is_lower_hex_digit(
                hex_encode_spec(data)[i],
            ),
{
    assert forall|i: int| 0 <= i < hex_encode_spec(data).len() implies #[trigger] is_lower_hex_digit(
        hex_encode_spec(data)[i],
    ) by {
        let n = if i % 2 == 0 { data[i / 2] as int / 16 } else { data[i / 2] as int % 16 };
        assert(0 <= n < 16);
        assert(hex_encode_spec(data)[i] == hex_char(n));
    }
}

/// Every Platform ID that `parse_quote` reports is 32 lowercase hexadecimal
/// digits, whichever format the quote had.
pub proof fn parsed_platform_id_is_lower_hex(input: Seq<char>)
    ensures
        parse_quote_spec(input) matches Ok(q) ==> is_platform_id_text(q.platform_id_hex)
            && is_ascii_text(q.platform_id_hex),
{
    let t = quote_text(input);
    if let Ok(q) = parse_quote_spec(input) {
        let bytes = hex_decode_spec(t).unwrap();
        if bytes.len() >= HEADER_MIN_LEN {
            lemma_hex_encode_lower(dcap_platform_id(bytes));
        } else {
            assert forall|i: int| 0 <= i < 32 implies #[trigger] is_lower_hex_digit(
                q.platform_id_hex[i],
            ) by {
                assert(is_hex_digit(t[i]));
            }
        }
        assert forall|i: int| 0 <= i < q.platform_id_hex.len() implies (
        #[trigger] q.platform_id_hex[i] as u32) < 128 by {
            assert(is_lower_hex_digit(q.platform_id_hex[i]));
        }
    }
}

/// The `N` bytes of `bytes` from `start` on; where `bytes` ends early the rest is zero.
fn copy_slice<const N: usize>(bytes: &[u8], start: usize) -> (out: [u8; N])
    requires
        start + N <= usize::MAX,
    ensures
        out@ == window(bytes@, start as int, N as nat),
{
    let mut out = [0u8; N];
    let end = if start + N < bytes.len() {
        start + N
    } else {
        bytes.len()
    };
    let len = if end > start {
        if end - start < N {
            end - start
        } else {
            N
        }
    } else {
        0
    };
    assert(len == 0 || start + len <= bytes@.len());
    let blen = bytes.len();
    for i in 0..len
        invariant
            blen == bytes@.len(),
            len <= N,
            len == 0 || start + len <= bytes@.len(),
            out@.len() == N,
            forall|j: int| 0 <= j < i ==> out@[j] == bytes@[start + j],
            forall|j: int| i <= j < N ==> out@[j] == 0u8,
    {
        assert(start + i < bytes@.len());
        out[i] = bytes[start + i];
    }
    assert(out@ =~= window(bytes@, start as int, N as nat));
    out
}

/// Whether every byte of `bytes` is zero.
fn is_all_zero(bytes: &[u8; 16]) -> (r: bool)
    ensures
        r == all_zero(bytes@),
{
    for i in 0..16
        invariant
            forall|j: int| 0 <= j < i ==> bytes@[j] == 0u8,
    {
        if bytes[i] != 0 {
            return false;
        }
    }
    true
}

/// Whether every character of `t` is a hexadecimal digit.
fn all_hex_chars(t: &Vec<char>) -> (r: bool)
    ensures
        r == all_hex_digits(t@),
{
    for i in 0..t.len()
        invariant
            forall|j: int| 0 <= j < i ==> is_hex_digit(#[trigger] t@[j]),
    {
        if !is_hex_digit_char(t[i]) {
            return false;
        }
    }
    true
}

/// A `String` holding the characters of `t`.
fn string_from_chars(t: &Vec<char>) -> (s: String)
    ensures
        s@ == t@,
{
    let mut s = String::new();
    for i in 0..t.len()
        invariant
            s@ == t@.take(i as int),
    {
        push_char(&mut s, t[i]);
        assert(s@ =~= t@.take(i + 1));
    }
    s
}

/// Start of `s[lo..hi]` once every leading `0x` is stripped.
fn strip_prefix_from(s: &Vec<char>, lo: usize, hi: usize) -> (r: usize)
    requires
        lo <= hi <= s@.len(),
    ensures
        lo <= r <= hi,
        s@.subrange(r as int, hi as int) == strip_hex_prefix(s@.subrange(lo as int, hi as int)),
{
    let ghost whole = s@.subrange(lo as int, hi as int);
    let mut k = lo;
    while hi - k >= 2 && s[k] == '0' && s[k + 1] == 'x'
        invariant
            lo <= k <= hi <= s@.len(),
            strip_hex_prefix(s@.subrange(k as int, hi as int)) == strip_hex_prefix(whole),
        decreases hi - k,
    {
        assert(s@.subrange(k as int, hi as int).skip(2) =~= s@.subrange(k + 2, hi as int));
        k = k + 2;
    }
    k
}

/// The characters of `s[lo..hi]` that are not whitespace.
fn without_whitespace(s: &Vec<char>, lo: usize, hi: usize) -> (t: Vec<char>)
    requires
        lo <= hi <= s@.len(),
    ensures
        t@ == remove_whitespace(s@.subrange(lo as int, hi as int)),
{
    let mut t: Vec<char> = Vec::new();
    let mut i: usize = lo;
    while i < hi
        invariant
            lo <= i <= hi <= s@.len(),
            t@ == remove_whitespace(s@.subrange(lo as int, i as int)),
        decreases hi - i,
    {
        assert(s@.subrange(lo as int, i + 1).drop_last() =~= s@.subrange(lo as int, i as int));
        if !is_whitespace_char(s[i]) {
            t.push(s[i]);
        }
        i = i + 1;
    }
    t
}

/// The quote text of `input`: trimmed, `0x` prefixes stripped, whitespace removed.
pub fn normalize_quote_text(input: &str) -> (t: Vec<char>)
    ensures
        t@ == quote_text(input@),
{
    let s = chars_of(input);
    let (lo, hi) = trimmed_bounds(&s);
    let lo = strip_prefix_from(&s, lo, hi);
    without_whitespace(&s, lo, hi)
}

/// Parse a hex-encoded attestation quote and extract Platform ID and DCAP fields.
///
/// - **DCAP format** (≥96 hex chars / 48 bytes): Intel DCAP header; Platform ID = bytes 28-43.
///   If bytes 28-43 are all zeroes (e.g. GCP TDX), Platform ID falls back to bytes 4-19.
///   If quote is long enough: TCB SVN at TD report offset 222, mr_td at TD report offset 128.
/// - **Simplified format** (32+ hex chars): First 16 bytes = Platform ID; TCB/mr_td/report_data zeroed.
/// Accepts input with or without "0x" prefix; strips whitespace.
pub fn parse_quote(input: &str) -> (res: Result<ParsedQuote, ParseError>)
    ensures
        match res {
            Ok(q) => parse_quote_spec(input@) == Ok::<QuoteModel, ParseError>(q@),
            Err(e) => parse_quote_spec(input@) == Err::<QuoteModel, ParseError>(e),
        },
{
    let t = normalize_quote_text(input);
    if t.len() == 0 {
        return Err(ParseError::InvalidHex);
    }
    if t.len() % 2 != 0 || !all_hex_chars(&t) {
        return Err(ParseError::InvalidHex);
    }
    if t.len() < 32 {
        return Err(ParseError::TooShort);
    }
    let text = string_from_chars(&t);
    let bytes = match hex_decode(text.as_str()) {
        Some(b) => b,
        None => return Err(ParseError::InvalidHex),
    };
    assert(bytes@ == hex_decode_spec(t@).unwrap());
    if bytes.len() >= HEADER_MIN_LEN {
        // Standard DCAP: Platform ID is at bytes 28..44 (user_data).
        // Some providers (notably GCP TDX) zero that region and instead place the
        // identifier in bytes 4..20 (TEE type + QE identifier).
        let primary_platform_id = copy_slice::<PLATFORM_ID_LEN>(bytes.as_slice(), PLATFORM_ID_START);
        let platform_id = if is_all_zero(&primary_platform_id) {
            copy_slice::<PLATFORM_ID_LEN>(bytes.as_slice(), PLATFORM_ID_FALLBACK_START)
        } else {
            primary_platform_id
        };
        let platform_id_hex = hex_encode(platform_id.as_slice());
        let tcb_svn: [u8; 16] = if bytes.len() >= TD_REPORT_START + TCB_SVN_OFFSET_IN_TD + TCB_SVN_LEN {
            copy_slice::<16>(bytes.as_slice(), TD_REPORT_START + TCB_SVN_OFFSET_IN_TD)
        } else {
            let z = [0u8; 16];
            assert(z@ =~= zeros(16));
            z
        };
        let mr_td: [u8; 48] = if bytes.len() >= TD_REPORT_START + MR_TD_OFFSET_IN_TD + MR_TD_LEN {
            copy_slice::<48>(bytes.as_slice(), TD_REPORT_START + MR_TD_OFFSET_IN_TD)
        } else {
            let z = [0u8; 48];
            assert(z@ =~= zeros(48));
            z
        };
        let report_data: [u8; 64] = if bytes.len() >= TD_REPORT_START + MR_TD_OFFSET_IN_TD
            + MR_TD_LEN + REPORT_DATA_LEN {
            copy_slice::<64>(
                bytes.as_slice(),
                TD_REPORT_START + MR_TD_OFFSET_IN_TD + MR_TD_LEN,
            )
        } else {
            let z = [0u8; 64];
            assert(z@ =~= zeros(64));
            z
        };
        Ok(ParsedQuote { platform_id_hex, tcb_svn, mr_td, report_data, raw: bytes, is_dcap_format: true })
    } else {
        let mut platform_id_hex = String::new();
        for i in 0..32
            invariant
                32 <= t@.len(),
                platform_id_hex@ == lower_hex_text(t@.take(i as int)),
        {
            push_char(&mut platform_id_hex, lower_hex_letter(t[i]));
            assert(platform_id_hex@ =~= lower_hex_text(t@.take(i + 1)));
        }
        let z16 = [0u8; 16];
        let z48 = [0u8; 48];
        let z64 = [0u8; 64];
        assert(z16@ =~= zeros(16));
        assert(z48@ =~= zeros(48));
        assert(z64@ =~= zeros(64));
        Ok(
            ParsedQuote {
                platform_id_hex,
                tcb_svn: z16,
                mr_td: z48,
                report_data: z64,
                raw: bytes,
                is_dcap_format: false,
            },
        )
    }
}

/// Hex-encode TCB SVN for storage/display.
pub fn tcb_svn_to_hex(svn: &[u8; 16]) -> (s: String)
    ensures
        s@ == hex_encode_spec(svn@),
{
    hex_encode(svn.as_slice())
}

/// Hex-encode mr_td for storage/display.
pub fn mr_td_to_hex(mr: &[u8; 48]) -> (s: String)
    ensures
        s@ == hex_encode_spec(mr@),
{
    hex_encode(mr.as_slice())
}

/// Removing trailing whitespace from `a + b` leaves `a` intact when `a` ends in
/// a character other than whitespace.
proof fn lemma_trim_end_append(a: Seq<char>, b: Seq<char>)
    requires
        a.len() > 0,
        !is_white_space(a.last()),
    ensures
        trim_end(a + b) == a + trim_end(b),
    decreases b.len(),
{
    if b.len() == 0 {
        assert(a + b =~= a);
    } else if is_white_space(b.last()) {
        assert((a + b).drop_last() =~= a + b.drop_last());
        lemma_trim_end_append(a, b.drop_last());
    } else {
        assert((a + b).last() == b.last());
    }
}

/// Leading whitespace is dropped: `trim_start(w + x) == trim_start(x)` for whitespace `w`.
proof fn lemma_trim_start_whitespace_prefix(w: Seq<char>, x: Seq<char>)
    requires
        forall|i: int| 0 <= i < w.len() ==> #[trigger] is_white_space(w[i]),
    ensures
        trim_start(w + x) == trim_start(x),
    decreases w.len(),
{
    if w.len() > 0 {
        assert((w + x).drop_first() =~= w.drop_first() + x);
        assert(is_white_space(w[0]));
        lemma_trim_start_whitespace_prefix(w.drop_first(), x);
    } else {
        assert(w + x =~= x);
    }
}

/// Trailing whitespace is dropped: `trim_end(x + w) == trim_end(x)` for whitespace `w`.
proof fn lemma_trim_end_whitespace_suffix(x: Seq<char>, w: Seq<char>)
    requires
        forall|i: int| 0 <= i < w.len() ==> #[trigger] is_white_space(w[i]),
    ensures
        trim_end(x + w) == trim_end(x),
    decreases w.len(),
{
    if w.len() > 0 {
        assert((x + w).drop_last() =~= x + w.drop_last());
        assert(is_white_space(w[w.len() - 1]));
        lemma_trim_end_whitespace_suffix(x, w.drop_last());
    } else {
        assert(x + w =~= x);
    }
}

/// Trimming the start of `a + b` only touches `a` while `a` is not all whitespace.
proof fn lemma_trim_start_append(a: Seq<char>, b: Seq<char>)
    ensures
        trim_start(a).len() > 0 ==> trim_start(a + b) == trim_start(a) + b,
        trim_start(a).len() == 0 ==> trim_start(a + b) == trim_start(b),
    decreases a.len(),
{
    if a.len() == 0 {
        assert(a + b =~= b);
    } else if is_white_space(a[0]) {
        assert((a + b).drop_first() =~= a.drop_first() + b);
        lemma_trim_start_append(a.drop_first(), b);
    } else {
        assert((a + b)[0] == a[0]);
    }
}

/// Whitespace around a quote does not change what it parses to.
pub proof fn surrounding_whitespace_is_ignored(w1: Seq<char>, s: Seq<char>, w2: Seq<char>)
    requires
        forall|i: int| 0 <= i < w1.len() ==> #[trigger] is_white_space(w1[i]),
        forall|i: int| 0 <= i < w2.len() ==> #[trigger] is_white_space(w2[i]),
    ensures
        quote_text(w1 + s + w2) == quote_text(s),
        parse_quote_spec(w1 + s + w2) == parse_quote_spec(s),
{
    assert(w1 + s + w2 =~= w1 + (s + w2));
    lemma_trim_start_whitespace_prefix(w1, s + w2);
    lemma_trim_start_append(s, w2);
    if trim_start(s).len() > 0 {
        lemma_trim_end_whitespace_suffix(trim_start(s), w2);
    } else {
        lemma_trim_start_whitespace_prefix(w2, Seq::empty());
        assert(w2 + Seq::<char>::empty() =~= w2);
    }
}

/// A quote parses the same with or without a leading `0x`, as long as the
/// quote itself does not begin with whitespace.
pub proof fn hex_prefix_is_optional(s: Seq<char>)
    requires
        s.len() == 0 || !is_white_space(s[0]),
    ensures
        quote_text(seq!['0', 'x'] + s) == quote_text(s),
        parse_quote_spec(seq!['0', 'x'] + s) == parse_quote_spec(s),
{
    let p = seq!['0', 'x'];
    assert(trim_start(s) == s);
    assert((p + s)[0] == '0');
    assert(trim_start(p + s) == p + s);
    lemma_trim_end_append(p, s);
    assert((p + trim_end(s)).skip(2) =~= trim_end(s));
    assert((p + trim_end(s))[0] == '0' && (p + trim_end(s))[1] == 'x');
}

/// Hexadecimal letters are read alike in either case: lowercasing the quote
/// text does not change what it parses to.
pub proof fn letter_case_is_ignored(t: Seq<char>)
    ensures
        parse_text(lower_hex_text(t)) == parse_text(t),
{
    let l = lower_hex_text(t);
    assert forall|i: int| 0 <= i < t.len() implies (is_hex_digit(#[trigger] l[i]) == is_hex_digit(t[i])
        && (is_hex_digit(t[i]) ==> hex_value(l[i]) == hex_value(t[i]))
        && lower_hex_char(l[i]) == lower_hex_char(t[i])) by {
    }
    assert(all_hex_digits(l) == all_hex_digits(t)) by {
        if all_hex_digits(t) {
            assert forall|i: int| 0 <= i < l.len() implies #[trigger] is_hex_digit(l[i]) by {
                assert(is_hex_digit(t[i]));
            }
        }
        if all_hex_digits(l) {
            assert forall|i: int| 0 <= i < t.len() implies #[trigger] is_hex_digit(t[i]) by {
                assert(is_hex_digit(l[i]));
            }
        }
    }
    if quote_text_error(t) is None {
        assert(hex_decode_spec(l) =~= hex_decode_spec(t)) by {
            let dl = hex_decode_spec(l).unwrap();
            let dt = hex_decode_spec(t).unwrap();
            assert(dl.len() == dt.len());
            assert forall|i: int| 0 <= i < dl.len() implies dl[i] == dt[i] by {
                assert(is_hex_digit(t[2 * i]));
                assert(is_hex_digit(t[2 * i + 1]));
            }
            assert(dl =~= dt);
        }
        assert(lower_hex_text(l.take(32)) =~= lower_hex_text(t.take(32)));
    }
}

/// Removing whitespace distributes over concatenation.
proof fn lemma_remove_whitespace_append(x: Seq<char>, y: Seq<char>)
    ensures
        remove_whitespace(x + y) == remove_whitespace(x) + remove_whitespace(y),
    decreases y.len(),
{
    if y.len() == 0 {
        assert(x + y =~= x);
        assert(remove_whitespace(x) + remove_whitespace(y) =~= remove_whitespace(x));
    } else {
        assert((x + y).drop_last() =~= x + y.drop_last());
        assert((x + y).last() == y.last());
        lemma_remove_whitespace_append(x, y.drop_last());
        if !is_white_space(y.last()) {
            assert(remove_whitespace(x) + remove_whitespace(y.drop_last()).push(y.last()) =~= (
            remove_whitespace(x) + remove_whitespace(y.drop_last())).push(y.last()));
        }
    }
}

/// Text without whitespace is left as it is by `remove_whitespace`; text made
/// only of whitespace vanishes.
proof fn lemma_remove_whitespace_extremes(x: Seq<char>)
    ensures
        (forall|i: int| 0 <= i < x.len() ==> !is_white_space(#[trigger] x[i])) ==> remove_whitespace(x) == x,
        (forall|i: int| 0 <= i < x.len() ==> is_white_space(#[trigger] x[i])) ==> remove_whitespace(x).len() == 0,
    decreases x.len(),
{
    if x.len() > 0 {
        lemma_remove_whitespace_extremes(x.drop_last());
        assert(x.drop_last().push(x.last()) =~= x);
        assert(x.last() == x[x.len() - 1]);
    }
}

/// Whitespace between hexadecimal digits does not change what a quote parses to.
pub proof fn inner_whitespace_is_ignored(a: Seq<char>, w: Seq<char>, b: Seq<char>)
    requires
        a.len() > 0,
        b.len() > 0,
        all_hex_digits(a),
        all_hex_digits(b),
        forall|i: int| 0 <= i < w.len() ==> #[trigger] is_white_space(w[i]),
    ensures
        quote_text(a + w + b) == a + b,
        quote_text(a + b) == a + b,
        parse_quote_spec(a + w + b) == parse_quote_spec(a + b),
{
    assert forall|c: char| is_hex_digit(c) implies !is_white_space(c) && c != 'x' by {}
    assert(is_hex_digit(a[0]));
    assert(is_hex_digit(b[b.len() - 1]));
    let x = a + w + b;
    let y = a + b;
    assert(x[0] == a[0] && y[0] == a[0]);
    assert(x.last() == b[b.len() - 1] && y.last() == b[b.len() - 1]);
    assert(trim_start(x) == x);
    assert(trim_end(x) == x);
    assert(trim_start(y) == y);
    assert(trim_end(y) == y);
    if a.len() >= 2 {
        assert(x[1] == a[1] && y[1] == a[1]);
        assert(is_hex_digit(a[1]));
    } else if w.len() > 0 {
        assert(x[1] == w[0]);
        assert(is_white_space(w[0]));
        assert(y[1] == b[0]);
        assert(is_hex_digit(b[0]));
    } else {
        assert(x[1] == b[0] && y[1] == b[0]);
        assert(is_hex_digit(b[0]));
    }
    assert(strip_hex_prefix(x) == x);
    assert(strip_hex_prefix(y) == y);
    lemma_remove_whitespace_append(a + w, b);
    lemma_remove_whitespace_append(a, w);
    lemma_remove_whitespace_append(a, b);
    assert forall|i: int| 0 <= i < a.len() implies !is_white_space(#[trigger] a[i]) by {
        assert(is_hex_digit(a[i]));
    }
    assert forall|i: int| 0 <= i < b.len() implies !is_white_space(#[trigger] b[i]) by {
        assert(is_hex_digit(b[i]));
    }
    lemma_remove_whitespace_extremes(a);
    lemma_remove_whitespace_extremes(w);
    lemma_remove_whitespace_extremes(b);
    assert(remove_whitespace(w) =~= Seq::<char>::empty());
    assert(a + Seq::<char>::empty() =~= a);
}

/// A Platform ID as the parser reports it is left unchanged by trimming and by
/// ASCII lowercasing.
pub proof fn platform_id_is_normalized(s: Seq<char>)
    requires
        is_platform_id_text(s),
    ensures
        trim(s) == s,
        ascii_lower_text(s) == s,
        is_ascii_text(s),
{
    assert(is_lower_hex_digit(s[0]));
    assert(is_lower_hex_digit(s[s.len() - 1]));
    assert(trim_start(s) == s);
    assert(trim_end(s) == s);
    assert forall|i: int| 0 <= i < s.len() implies #[trigger] ascii_lower_char(s[i]) == s[i] && (
    s[i] as u32) < 128 by {
        assert(is_lower_hex_digit(s[i]));
    }
    assert(ascii_lower_text(s) =~= s);
}

/// Text begins with `0x`.
pub open spec fn starts_with_hex_prefix(x: Seq<char>) -> bool {
    x.len() >= 2 && x[0] == '0' && x[1] == 'x'
}

/// What `trim_start` leaves begins with a character other than whitespace.
proof fn lemma_trim_start_shape(x: Seq<char>)
    ensures
        trim_start(x).len() == 0 || !is_white_space(trim_start(x)[0]),
    decreases x.len(),
{
    if x.len() > 0 && is_white_space(x[0]) {
        lemma_trim_start_shape(x.drop_first());
    }
}

/// What `trim_end` leaves is a prefix of `x` ending in a character other than whitespace.
proof fn lemma_trim_end_shape(x: Seq<char>)
    ensures
        trim_end(x) == x.take(trim_end(x).len() as int),
        trim_end(x).len() <= x.len(),
        trim_end(x).len() == 0 || !is_white_space(trim_end(x).last()),
    decreases x.len(),
{
    if x.len() > 0 && is_white_space(x.last()) {
        lemma_trim_end_shape(x.drop_last());
        assert(x.drop_last().take(trim_end(x).len() as int) =~= x.take(trim_end(x).len() as int));
    } else {
        assert(x.take(x.len() as int) =~= x);
    }
}

/// Trimming twice is trimming once.
pub proof fn trim_is_idempotent(s: Seq<char>)
    ensures
        trim(trim(s)) == trim(s),
        trim(s).len() == 0 || !is_white_space(trim(s)[0]),
{
    let x = trim_start(s);
    let t = trim_end(x);
    lemma_trim_start_shape(s);
    lemma_trim_end_shape(x);
    if t.len() > 0 {
        assert(t[0] == x[0]);
        assert(trim_start(t) == t);
        assert(trim_end(t) == t);
    }
}

/// Trimmed-off whitespace would be removed anyway.
proof fn lemma_remove_whitespace_trim(x: Seq<char>)
    ensures
        remove_whitespace(trim(x)) == remove_whitespace(x),
{
    lemma_remove_whitespace_trim_start(x);
    lemma_remove_whitespace_trim_end(trim_start(x));
}

proof fn lemma_remove_whitespace_trim_start(x: Seq<char>)
    ensures
        remove_whitespace(trim_start(x)) == remove_whitespace(x),
    decreases x.len(),
{
    if x.len() > 0 && is_white_space(x[0]) {
        lemma_remove_whitespace_trim_start(x.drop_first());
        let head = x.take(1);
        assert(head + x.drop_first() =~= x);
        lemma_remove_whitespace_append(head, x.drop_first());
        assert(head.drop_last() =~= Seq::<char>::empty());
        assert(head.last() == x[0]);
        assert(remove_whitespace(head) == remove_whitespace(head.drop_last()));
        assert(Seq::<char>::empty() + remove_whitespace(x.drop_first()) =~= remove_whitespace(
            x.drop_first(),
        ));
    }
}

proof fn lemma_remove_whitespace_trim_end(x: Seq<char>)
    ensures
        remove_whitespace(trim_end(x)) == remove_whitespace(x),
    decreases x.len(),
{
    if x.len() > 0 && is_white_space(x.last()) {
        lemma_remove_whitespace_trim_end(x.drop_last());
    }
}

/// A quote parses the same as the quote with `0x` put in front of its trimmed text.
pub proof fn hex_prefix_before_trimmed_quote(input: Seq<char>)
    ensures
        parse_quote_spec(seq!['0', 'x'] + trim(input)) == parse_quote_spec(input),
{
    trim_is_idempotent(input);
    hex_prefix_is_optional(trim(input));
}

/// Whitespace anywhere is ignored: two inputs whose trimmed text does not
/// begin with `0x` and that agree once all whitespace is removed parse alike.
pub proof fn whitespace_anywhere_is_ignored(s1: Seq<char>, s2: Seq<char>)
    requires
        !starts_with_hex_prefix(trim(s1)),
        !starts_with_hex_prefix(trim(s2)),
        remove_whitespace(s1) == remove_whitespace(s2),
    ensures
        quote_text(s1) == remove_whitespace(s1),
        parse_quote_spec(s1) == parse_quote_spec(s2),
{
    assert(strip_hex_prefix(trim(s1)) == trim(s1));
    assert(strip_hex_prefix(trim(s2)) == trim(s2));
    lemma_remove_whitespace_trim(s1);
    lemma_remove_whitespace_trim(s2);
}

/// Making hex letters lowercase keeps whitespace, `0` and `x` where they are.
proof fn lemma_lower_hex_char_keeps_layout(c: char)
    ensures
        is_white_space(lower_hex_char(c)) == is_white_space(c),
        (lower_hex_char(c) == '0') == (c == '0'),
        (lower_hex_char(c) == 'x') == (c == 'x'),
        lower_hex_char(lower_hex_char(c)) == lower_hex_char(c),
{
}

proof fn lemma_lower_trim_start(x: Seq<char>)
    ensures
        trim_start(lower_hex_text(x)) == lower_hex_text(trim_start(x)),
    decreases x.len(),
{
    if x.len() > 0 {
        lemma_lower_hex_char_keeps_layout(x[0]);
        assert(lower_hex_text(x).drop_first() =~= lower_hex_text(x.drop_first()));
        if is_white_space(x[0]) {
            lemma_lower_trim_start(x.drop_first());
        }
    }
}

proof fn lemma_lower_trim_end(x: Seq<char>)
    ensures
        trim_end(lower_hex_text(x)) == lower_hex_text(trim_end(x)),
    decreases x.len(),
{
    if x.len() > 0 {
        lemma_lower_hex_char_keeps_layout(x.last());
        assert(lower_hex_text(x).drop_last() =~= lower_hex_text(x.drop_last()));
        if is_white_space(x.last()) {
            lemma_lower_trim_end(x.drop_last());
        }
    }
}

proof fn lemma_lower_strip(x: Seq<char>)
    ensures
        strip_hex_prefix(lower_hex_text(x)) == lower_hex_text(strip_hex_prefix(x)),
    decreases x.len(),
{
    if x.len() >= 2 {
        lemma_lower_hex_char_keeps_layout(x[0]);
        lemma_lower_hex_char_keeps_layout(x[1]);
        if x[0] == '0' && x[1] == 'x' {
            assert(lower_hex_text(x).skip(2) =~= lower_hex_text(x.skip(2)));
            lemma_lower_strip(x.skip(2));
        }
    }
}

proof fn lemma_lower_remove_whitespace(x: Seq<char>)
    ensures
        remove_whitespace(lower_hex_text(x)) == lower_hex_text(remove_whitespace(x)),
    decreases x.len(),
{
    if x.len() > 0 {
        lemma_lower_hex_char_keeps_layout(x.last());
        assert(lower_hex_text(x).drop_last() =~= lower_hex_text(x.drop_last()));
        lemma_lower_remove_whitespace(x.drop_last());
        let r = remove_whitespace(x.drop_last());
        assert(lower_hex_text(r.push(x.last())) =~= lower_hex_text(r).push(lower_hex_char(x.last())));
    } else {
        assert(lower_hex_text(x) =~= x);
    }
}

/// Lowercasing hex letters of an input lowercases those of its quote text.
proof fn lemma_lower_quote_text(s: Seq<char>)
    ensures
        quote_text(lower_hex_text(s)) == lower_hex_text(quote_text(s)),
{
    lemma_lower_trim_start(s);
    lemma_lower_trim_end(trim_start(s));
    lemma_lower_strip(trim(s));
    lemma_lower_remove_whitespace(strip_hex_prefix(trim(s)));
}

/// Hex letter case is ignored: inputs that agree once their hex letters are
/// lowercase parse alike.
pub proof fn input_letter_case_is_ignored(s1: Seq<char>, s2: Seq<char>)
    requires
        lower_hex_text(s1) == lower_hex_text(s2),
    ensures
        parse_quote_spec(s1) == parse_quote_spec(s2),
{
    lemma_lower_quote_text(s1);
    lemma_lower_quote_text(s2);
    letter_case_is_ignored(quote_text(s1));
    letter_case_is_ignored(quote_text(s2));
}

/// Every field of an accepted quote, read straight from the bytes `b` that its
/// hexadecimal text stands for, whatever the quote's length:
/// - `raw` is `b`, and the quote counts as DCAP exactly when `b` has 48 bytes or more;
/// - for DCAP, the Platform ID is the hex of bytes 4..20 when bytes 28..44 are
///   all zero, else the hex of bytes 28..44; the TCB SVN is bytes 270..286,
///   MR_TD bytes 176..224 and the report data bytes 224..288, each present as
///   soon as the quote reaches its end and zero otherwise;
/// - for the simplified format, the Platform ID is the first 32 hex digits in
///   lowercase and the other fields are zero.
pub proof fn quote_fields_come_from_their_offsets(input: Seq<char>)
    requires
        parse_quote_spec(input) is Ok,
    ensures
        ({
            let q = parse_quote_spec(input)->Ok_0;
            let t = quote_text(input);
            let b = hex_decode_spec(t)->Some_0;
            &&& hex_decode_spec(t) is Some
            &&& q.raw == b
            &&& q.is_dcap_format == (b.len() >= 48)
            &&& (b.len() >= 48 && (forall|i: int| 28 <= i < 44 ==> #[trigger] b[i] == 0u8))
                ==> q.platform_id_hex == hex_encode_spec(b.subrange(4, 20))
            &&& (b.len() >= 48 && (exists|i: int| 28 <= i < 44 && #[trigger] b[i] != 0u8))
                ==> q.platform_id_hex == hex_encode_spec(b.subrange(28, 44))
            &&& (b.len() >= 286 ==> q.tcb_svn == b.subrange(270, 286))
            &&& (b.len() < 286 ==> q.tcb_svn == Seq::new(16, |i: int| 0u8))
            &&& (b.len() >= 224 ==> q.mr_td == b.subrange(176, 224))
            &&& (b.len() < 224 ==> q.mr_td == Seq::new(48, |i: int| 0u8))
            &&& (b.len() >= 288 ==> q.report_data == b.subrange(224, 288))
            &&& (b.len() < 288 ==> q.report_data == Seq::new(64, |i: int| 0u8))
            &&& (b.len() < 48 ==> q.platform_id_hex == lower_hex_text(t.take(32)))
        }),
{
    let t = quote_text(input);
    let b = hex_decode_spec(t).unwrap();
    let q = parse_quote_spec(input)->Ok_0;
    assert(quote_text_error(t) is None);
    assert(q == quote_model(t));
    if b.len() >= 48 {
        let primary = window(b, 28, 16);
        assert(primary =~= b.subrange(28, 44));
        assert(window(b, 4, 16) =~= b.subrange(4, 20));
        if forall|i: int| 28 <= i < 44 ==> #[trigger] b[i] == 0u8 {
            assert(all_zero(primary)) by {
                assert forall|j: int| 0 <= j < primary.len() implies #[trigger] primary[j] == 0 by {
                    assert(b[28 + j] == 0u8);
                }
            }
        }
        if exists|i: int| 28 <= i < 44 && #[trigger] b[i] != 0u8 {
            let i = choose|i: int| 28 <= i < 44 && #[trigger] b[i] != 0u8;
            assert(primary[i - 28] != 0);
        }
        if b.len() >= 286 {
            assert(window(b, 270, 16) =~= b.subrange(270, 286));
        }
        if b.len() >= 224 {
            assert(window(b, 176, 48) =~= b.subrange(176, 224));
        }
        if b.len() >= 288 {
            assert(window(b, 224, 64) =~= b.subrange(224, 288));
        }
    }
}

} // verus!
