use base64::Engine;
use trustverify::quote_fetcher::{jwt_payload, jwt_payload_segment, quote_from_claims, FetchError};

fn b64(data: &[u8]) -> String {
    base64::engine::general_purpose::URL_SAFE_NO_PAD.encode(data)
}

#[test]
fn payload_segment_between_dots() {
    assert_eq!(jwt_payload_segment("aaa.bbb.ccc").as_deref(), Some("bbb"));
    assert_eq!(jwt_payload_segment("aaa.bbb").as_deref(), Some("bbb"));
    assert_eq!(jwt_payload_segment("aaa.bbb.ccc.ddd").as_deref(), Some("bbb"));
    assert_eq!(jwt_payload_segment(".").as_deref(), Some(""));
    assert_eq!(jwt_payload_segment("nodots"), None);
}

#[test]
fn payload_is_decoded() {
    let token = format!("hdr.{}.sig", b64(br#"{"quote":"abc"}"#));
    assert_eq!(jwt_payload(&token).unwrap(), br#"{"quote":"abc"}"#.to_vec());
}

#[test]
fn token_without_dot_is_rejected() {
    match jwt_payload("nodots") {
        Err(FetchError::Decode(m)) => assert_eq!(m, "JWT must have at least header.payload"),
        other => panic!("unexpected {:?}", other),
    }
}

#[test]
fn bad_payload_base64_is_rejected() {
    assert!(matches!(jwt_payload("a.!!!.c"), Err(FetchError::Decode(_))));
}

#[test]
fn raw_quote_preferred_then_quote_then_trimmed() {
    let raw = b64(&[1, 2, 3]);
    let q = b64(&[4, 5, 6]);
    assert_eq!(quote_from_claims(Some(raw.clone()), Some(q.clone())).unwrap(), vec![1, 2, 3]);
    assert_eq!(quote_from_claims(None, Some(q.clone())).unwrap(), vec![4, 5, 6]);
    assert_eq!(quote_from_claims(Some(format!("  {}\n", raw)), None).unwrap(), vec![1, 2, 3]);
    assert!(matches!(quote_from_claims(Some("!!".to_string()), None), Err(FetchError::Decode(_))));
}

#[test]
fn missing_quote_is_rejected() {
    match quote_from_claims(None, None) {
        Err(FetchError::Decode(m)) => assert!(m.starts_with("JWT payload has no quote/raw_quote")),
        other => panic!("unexpected {:?}", other),
    }
}

#[test]
fn fetch_error_messages() {
    assert_eq!(FetchError::Request("HTTP 404".to_string()).to_string(), "Request failed: HTTP 404");
    assert_eq!(FetchError::Decode("x".to_string()).to_string(), "Decode failed: x");
}
