use base64::Engine;
use ring::signature::{Ed25519KeyPair, KeyPair};
use trustverify::registry::{
    decode_private_key, encode_key_pair, entry_signed_message, lookup_normalized, lookup_provider, sign_entry,
    sign_entry_with_key, verify_decoded_signature, verify_entry_signature, Registry,
    RegistryEntry, SignError,
};

fn entry(id: &str, provider: &str, region: &str, level: u8) -> RegistryEntry {
    RegistryEntry {
        platform_id_hex: id.to_string(),
        provider: provider.to_string(),
        region: region.to_string(),
        verification_level: level,
        added_at: None,
        signature: None,
        signer_pubkey: None,
    }
}

fn registry(entries: Vec<RegistryEntry>) -> Registry {
    Registry { version: "1.0".to_string(), description: None, entries }
}

fn signed(mut e: RegistryEntry) -> RegistryEntry {
    let pair = Ed25519KeyPair::from_seed_unchecked(&[7u8; 32]).unwrap();
    let msg = entry_signed_message(&e);
    let sig = pair.sign(&msg);
    e.signature = Some(base64::engine::general_purpose::STANDARD.encode(sig.as_ref()));
    e.signer_pubkey =
        Some(base64::engine::general_purpose::STANDARD.encode(pair.public_key().as_ref()));
    e
}

#[test]
fn signed_message_format() {
    let e = entry("  A1B2C3D4E5F6789012345678ABCDEF01 ", "Demo AWS", "us-east-1", 123);
    assert_eq!(
        entry_signed_message(&e),
        b"a1b2c3d4e5f6789012345678abcdef01|Demo AWS|us-east-1|123".to_vec()
    );
    let e0 = entry("ab", "P", "R", 0);
    assert_eq!(entry_signed_message(&e0), b"ab|P|R|0".to_vec());
    let e9 = entry("ab", "P", "R", 45);
    assert_eq!(entry_signed_message(&e9), b"ab|P|R|45".to_vec());
}

#[test]
fn lookup_finds_trimmed_case_insensitive_match() {
    let reg = registry(vec![
        entry("ffff", "Other", "eu", 1),
        entry(" A1B2C3D4E5F6789012345678ABCDEF01 ", "Demo AWS", "us-east-1", 2),
        entry("a1b2c3d4e5f6789012345678abcdef01", "Second", "us-west-2", 3),
    ]);
    let m = lookup_provider(&reg, "a1b2c3d4e5f6789012345678abcdef01");
    assert!(m.found);
    assert_eq!(m.provider.as_deref(), Some("Demo AWS"));
    assert_eq!(m.region.as_deref(), Some("us-east-1"));
    assert_eq!(m.verification_level, Some(2));
    assert_eq!(m.signature_valid, None);
}

#[test]
fn lookup_unknown_platform_id() {
    let reg = registry(vec![entry("a1b2c3d4e5f6789012345678abcdef01", "Demo AWS", "us-east-1", 1)]);
    let m = lookup_provider(&reg, "ffffffffffffffffffffffffffffffff");
    assert!(!m.found);
    assert!(m.provider.is_none() && m.region.is_none());
    assert!(m.verification_level.is_none() && m.signature_valid.is_none());
}

#[test]
fn lookup_reports_valid_signature() {
    let e = signed(entry("a1b2c3d4e5f6789012345678abcdef01", "Demo AWS", "us-east-1", 1));
    assert!(verify_entry_signature(&e));
    let reg = registry(vec![e]);
    let m = lookup_provider(&reg, "A1B2C3D4E5F6789012345678ABCDEF01");
    assert!(m.found);
    assert_eq!(m.signature_valid, Some(true));
}

#[test]
fn tampered_entry_fails_signature() {
    let mut e = signed(entry("a1b2c3d4e5f6789012345678abcdef01", "Demo AWS", "us-east-1", 1));
    e.provider = "Evil Corp".to_string();
    assert!(!verify_entry_signature(&e));
    let reg = registry(vec![e]);
    let m = lookup_provider(&reg, "a1b2c3d4e5f6789012345678abcdef01");
    assert_eq!(m.signature_valid, Some(false));
}

#[test]
fn signature_without_key_fails_key_without_signature_passes() {
    let mut e = entry("ab", "P", "R", 0);
    e.signature = Some("not base64 at all".to_string());
    assert!(!verify_entry_signature(&e));
    let reg = registry(vec![e]);
    assert_eq!(lookup_provider(&reg, "ab").signature_valid, Some(false));

    let mut k = entry("ab", "P", "R", 0);
    k.signer_pubkey = Some("AAAA".to_string());
    assert!(verify_entry_signature(&k));
    let reg = registry(vec![k]);
    assert_eq!(lookup_provider(&reg, "ab").signature_valid, Some(true));
}

#[test]
fn undecodable_signature_fails() {
    let mut e = entry("ab", "P", "R", 0);
    e.signature = Some("***".to_string());
    e.signer_pubkey = Some("AAAA".to_string());
    assert!(!verify_entry_signature(&e));
}

#[test]
fn wrong_length_signature_fails() {
    let e = entry("ab", "P", "R", 0);
    assert!(!verify_decoded_signature(&e, &[0u8; 63], &[0u8; 32]));
    assert!(!verify_decoded_signature(&e, &[0u8; 64], &[0u8; 31]));
    let mut s = e.clone();
    s.signature = Some(base64::engine::general_purpose::STANDARD.encode([1u8; 10]));
    s.signer_pubkey = Some(base64::engine::general_purpose::STANDARD.encode([2u8; 32]));
    assert!(!verify_entry_signature(&s));
}

#[test]
fn lookup_normalized_compares_entry_keys() {
    let reg = registry(vec![entry(" ABCD ", "Upper", "r1", 1), entry("abcd", "Lower", "r2", 2)]);
    let m = lookup_normalized(&reg, &"abcd".to_string());
    assert_eq!(m.provider.as_deref(), Some("Upper"));
    // The query itself is not normalised here.
    assert!(!lookup_normalized(&reg, &"ABCD".to_string()).found);
    assert!(!lookup_normalized(&reg, &" abcd".to_string()).found);
}

fn pkcs8_b64() -> String {
    let rng = ring::rand::SystemRandom::new();
    let pkcs8 = Ed25519KeyPair::generate_pkcs8(&rng).unwrap();
    base64::engine::general_purpose::STANDARD.encode(pkcs8.as_ref())
}

#[test]
fn signed_entries_verify() {
    let key = pkcs8_b64();
    let mut e = entry(" A1B2 ", "Demo AWS", "us-east-1", 2);
    let (sig, pk) = sign_entry(&e, &key).unwrap();
    let raw_sig = base64::engine::general_purpose::STANDARD.decode(&sig).unwrap();
    let raw_pk = base64::engine::general_purpose::STANDARD.decode(&pk).unwrap();
    assert_eq!(raw_sig.len(), 64);
    assert_eq!(raw_pk.len(), 32);
    e.signature = Some(sig.clone());
    e.signer_pubkey = Some(pk.clone());
    assert!(verify_entry_signature(&e));
    // Signing with the decoded key gives the same (deterministic) signature.
    let k = decode_private_key(&key).unwrap();
    assert_eq!(sign_entry_with_key(&e, &k).unwrap(), (sig, pk));
    // The signed fields are bound: another region no longer verifies.
    e.region = "eu-west-1".to_string();
    assert!(!verify_entry_signature(&e));
}

#[test]
fn sign_errors() {
    let e = entry("ab", "P", "R", 0);
    assert!(matches!(sign_entry(&e, "***"), Err(SignError::InvalidBase64Key)));
    assert!(matches!(sign_entry(&e, "AAAA"), Err(SignError::InvalidPkcs8Key)));
    assert_eq!(SignError::InvalidBase64Key.to_string(), "invalid base64 private key");
    assert_eq!(SignError::InvalidPkcs8Key.to_string(), "invalid PKCS#8 private key");
}

#[test]
fn signed_message_matches_signing_format() {
    for (id, provider, region, level) in
        [(" ABcd ", "Demo AWS", "us-east-1", 0u8), ("ff", "x|y", "", 7), ("A", "P", "R", 255)]
    {
        let e = entry(id, provider, region, level);
        let expected = format!("{}|{}|{}|{}", id.trim().to_lowercase(), provider, region, level as u64);
        assert_eq!(entry_signed_message(&e), expected.into_bytes());
    }
}

#[test]
fn key_pair_texts_are_standard_base64() {
    let (a, b) = encode_key_pair(&[0xfb, 0xff], &[1, 2, 3]);
    assert_eq!(a, "+/8=");
    assert_eq!(b, "AQID");
}
