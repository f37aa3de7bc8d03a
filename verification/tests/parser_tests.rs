use trustverify::parser::{
    mr_td_to_hex, parse_quote, tcb_svn_to_hex, ParseError, PLATFORM_ID_FALLBACK_START,
    PLATFORM_ID_LEN, PLATFORM_ID_START,
};
use trustverify::text::is_whitespace_char;

#[test]
fn parse_trusted_quote() {
    let quote = "a1b2c3d4e5f6789012345678abcdef0100000000000000000000000000000000000000000000000000000000000000";
    let parsed = parse_quote(quote).unwrap();
    assert_eq!(parsed.platform_id_hex, "a1b2c3d4e5f6789012345678abcdef01");
}

#[test]
fn parse_with_0x_prefix() {
    let quote = "0xa1b2c3d4e5f6789012345678abcdef01000000000000000000000000000000";
    let parsed = parse_quote(quote).unwrap();
    assert_eq!(parsed.platform_id_hex, "a1b2c3d4e5f6789012345678abcdef01");
}

#[test]
fn parse_too_short_fails() {
    let quote = "deadbeef";
    assert!(matches!(parse_quote(quote), Err(ParseError::TooShort)));
}

#[test]
fn parse_invalid_hex_fails() {
    let quote = "notvalidhex!!!";
    assert!(matches!(parse_quote(quote), Err(ParseError::InvalidHex)));
}

#[test]
fn parse_dcap_format_extracts_platform_id_from_user_data() {
    let quote = "030002008100000000000000939a7233f79c4ca9940a0db3957f3465aabbccdd11223344aabbccdd112233440000".to_string()
        + &"00".repeat(100);
    let parsed = parse_quote(&quote).unwrap();
    assert_eq!(parsed.platform_id_hex, "aabbccdd11223344aabbccdd11223344");
    assert!(parsed.is_dcap_format);
}

#[test]
fn parse_dcap_format_falls_back_when_platform_id_zeroed() {
    // Create a "DCAP-shaped" quote long enough to trigger the DCAP branch,
    // with primary Platform ID (bytes 28..44) zeroed and fallback bytes 4..20 populated.
    let mut bytes = vec![0u8; 64];

    // bytes 28..44 = all zeros (primary)
    assert!(bytes[PLATFORM_ID_START..(PLATFORM_ID_START + PLATFORM_ID_LEN)]
        .iter()
        .all(|&b| b == 0));

    let fallback: [u8; PLATFORM_ID_LEN] = [
        0x11, 0x22, 0x33, 0x44, 0x55, 0x66, 0x77, 0x88, 0x99, 0xaa, 0xbb, 0xcc, 0xdd,
        0xee, 0xff, 0x00,
    ];

    bytes[PLATFORM_ID_FALLBACK_START..(PLATFORM_ID_FALLBACK_START + PLATFORM_ID_LEN)]
        .copy_from_slice(&fallback);

    let quote = hex::encode(&bytes);
    let parsed = parse_quote(&quote).unwrap();

    assert!(parsed.is_dcap_format);
    assert_eq!(parsed.platform_id_hex, hex::encode(&fallback));
}

#[test]
fn parse_empty_and_whitespace_only_are_invalid_hex() {
    assert!(matches!(parse_quote(""), Err(ParseError::InvalidHex)));
    assert!(matches!(parse_quote("   \n\t "), Err(ParseError::InvalidHex)));
    assert!(matches!(parse_quote("0x"), Err(ParseError::InvalidHex)));
}

#[test]
fn parse_odd_length_is_invalid_hex() {
    let quote = "a1b2c3d4e5f6789012345678abcdef010";
    assert!(matches!(parse_quote(quote), Err(ParseError::InvalidHex)));
}

#[test]
fn parse_strips_whitespace_and_repeated_prefix() {
    let quote = "  0x0xA1B2 C3D4\nE5F6789012345678ABCDEF01 0000\t  ";
    let parsed = parse_quote(quote).unwrap();
    assert_eq!(parsed.platform_id_hex, "a1b2c3d4e5f6789012345678abcdef01");
    assert!(!parsed.is_dcap_format);
    assert_eq!(parsed.raw.len(), 18);
    assert_eq!(parsed.tcb_svn, [0u8; 16]);
    assert_eq!(parsed.mr_td, [0u8; 48]);
    assert_eq!(parsed.report_data, [0u8; 64]);
}

#[test]
fn parse_prefix_after_inner_whitespace_is_rejected() {
    // Only leading `0x` (after trimming) is stripped; a second one after a space stays.
    let quote = "0x 0xa1b2c3d4e5f6789012345678abcdef01";
    assert!(matches!(parse_quote(quote), Err(ParseError::InvalidHex)));
}

#[test]
fn parse_uppercase_prefix_is_not_stripped() {
    let quote = "0Xa1b2c3d4e5f6789012345678abcdef01";
    assert!(matches!(parse_quote(quote), Err(ParseError::InvalidHex)));
}

#[test]
fn parse_exactly_32_and_31_hex_chars() {
    assert!(parse_quote("a1b2c3d4e5f6789012345678abcdef01").is_ok());
    assert!(matches!(
        parse_quote("a1b2c3d4e5f6789012345678abcdef0"),
        Err(ParseError::InvalidHex)
    ));
    assert!(matches!(
        parse_quote("a1b2c3d4e5f6789012345678abcdef"),
        Err(ParseError::TooShort)
    ));
}

#[test]
fn parse_dcap_reads_td_report_fields() {
    let mut bytes = vec![0u8; 300];
    for (i, b) in bytes.iter_mut().enumerate() {
        *b = (i % 251) as u8;
    }
    let quote = hex::encode(&bytes);
    let parsed = parse_quote(&quote).unwrap();
    assert!(parsed.is_dcap_format);
    assert_eq!(parsed.platform_id_hex, hex::encode(&bytes[28..44]));
    assert_eq!(&parsed.tcb_svn[..], &bytes[270..286]);
    assert_eq!(&parsed.mr_td[..], &bytes[176..224]);
    assert_eq!(&parsed.report_data[..], &bytes[224..288]);
    assert_eq!(parsed.raw, bytes);
    assert_eq!(tcb_svn_to_hex(&parsed.tcb_svn), hex::encode(&bytes[270..286]));
    assert_eq!(mr_td_to_hex(&parsed.mr_td), hex::encode(&bytes[176..224]));
}

#[test]
fn parse_dcap_short_td_report_leaves_fields_zero() {
    // 230 bytes: mr_td present (needs 224), report data (288) and TCB SVN (286) absent.
    let bytes: Vec<u8> = (0..230u32).map(|i| (i % 200 + 1) as u8).collect();
    let parsed = parse_quote(&hex::encode(&bytes)).unwrap();
    assert_eq!(&parsed.mr_td[..], &bytes[176..224]);
    assert_eq!(parsed.tcb_svn, [0u8; 16]);
    assert_eq!(parsed.report_data, [0u8; 64]);
}

#[test]
fn parse_exactly_48_bytes_is_dcap() {
    let mut bytes = vec![0u8; 48];
    bytes[28] = 0xab;
    let parsed = parse_quote(&hex::encode(&bytes)).unwrap();
    assert!(parsed.is_dcap_format);
    assert_eq!(parsed.platform_id_hex, "ab000000000000000000000000000000");
    let short = parse_quote(&hex::encode(&bytes[..47])).unwrap();
    assert!(!short.is_dcap_format);
    assert_eq!(short.platform_id_hex, hex::encode(&bytes[..16]));
}

#[test]
fn parse_uppercase_dcap_gives_lowercase_platform_id() {
    let mut bytes = vec![0u8; 64];
    bytes[28..44].copy_from_slice(&[0xAB; 16]);
    let upper = hex::encode_upper(&bytes);
    let lower = hex::encode(&bytes);
    let a = parse_quote(&upper).unwrap();
    let b = parse_quote(&lower).unwrap();
    assert_eq!(a.platform_id_hex, b.platform_id_hex);
    assert_eq!(a.platform_id_hex, "abababababababababababababababab");
}

#[test]
fn parse_error_messages() {
    assert_eq!(ParseError::InvalidHex.to_string(), "Invalid hex encoding");
    assert_eq!(
        ParseError::TooShort.to_string(),
        "Quote too short (need at least 32 hex chars for Platform ID)"
    );
}

#[test]
fn whitespace_matches_std() {
    for u in 0u32..0x110000 {
        if let Some(c) = char::from_u32(u) {
            assert_eq!(is_whitespace_char(c), c.is_whitespace(), "char {:#x}", u);
        }
    }
}

#[test]
fn prefix_and_surrounding_whitespace_do_not_change_result() {
    let mut bytes = vec![0u8; 300];
    for (i, b) in bytes.iter_mut().enumerate() {
        *b = (i * 7 % 256) as u8;
    }
    let plain = hex::encode(&bytes);
    let base = parse_quote(&plain).unwrap();
    for variant in [
        format!("0x{}", plain),
        format!(" \t\n{}\r\n ", plain),
        format!("\u{3000}0x{}\u{a0}", plain),
        format!("{} {}", &plain[..10], &plain[10..]),
    ] {
        let v = parse_quote(&variant).unwrap();
        assert_eq!(v.platform_id_hex, base.platform_id_hex);
        assert_eq!(v.tcb_svn, base.tcb_svn);
        assert_eq!(v.mr_td, base.mr_td);
        assert_eq!(v.report_data, base.report_data);
        assert_eq!(v.raw, base.raw);
        assert_eq!(v.is_dcap_format, base.is_dcap_format);
    }
    // A leading space before the quote's own `0x` is not an optional prefix.
    let spaced = format!("0x 0x{}", plain);
    assert!(matches!(parse_quote(&spaced), Err(ParseError::InvalidHex)));
}
