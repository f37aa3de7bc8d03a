use trustverify::engine::{
    compute_trust_score, verify, verify_at, verify_with_registry, verify_with_registry_at,
};
use trustverify::history::{detect_migration, detect_regression, latest_svn, QuoteRecord};
use trustverify::registry::{Registry, RegistryEntry};

const TRUSTED: &str = "a1b2c3d4e5f6789012345678abcdef0100000000000000000000000000000000000000000000000000000000000000";
const UNKNOWN: &str = "ffffffffffffffffffffffffffffffff0000000000000000000000000000000000000000000000000000000000000000";

fn demo_registry() -> Registry {
    Registry {
        version: "1.0".to_string(),
        description: Some("demo".to_string()),
        entries: vec![RegistryEntry {
            platform_id_hex: "a1b2c3d4e5f6789012345678abcdef01".to_string(),
            provider: "Demo AWS".to_string(),
            region: "us-east-1".to_string(),
            verification_level: 1,
            added_at: None,
            signature: None,
            signer_pubkey: None,
        }],
    }
}

fn record(ppid: &str, svn: &str) -> QuoteRecord {
    QuoteRecord {
        ppid: ppid.to_string(),
        tcb_svn: svn.to_string(),
        mr_td: String::new(),
        timestamp: "2025-01-01T00:00:00+00:00".to_string(),
        provider: None,
    }
}

#[test]
fn trust_score_formula() {
    assert_eq!(compute_trust_score(false, true, false, false, true), 0);
    assert_eq!(compute_trust_score(true, true, false, false, true), 100);
    assert_eq!(compute_trust_score(true, false, false, false, true), 75);
    assert_eq!(compute_trust_score(true, false, true, true, false), 50);
    assert_eq!(compute_trust_score(true, true, true, false, true), 85);
    assert_eq!(compute_trust_score(true, false, true, false, true), 60);
}

#[test]
fn trusted_quote_verdict() {
    let (r, rec) = verify_with_registry(TRUSTED, &demo_registry(), None);
    assert!(rec.is_none());
    assert!(r.valid);
    assert_eq!(r.status, "Trusted");
    assert_eq!(r.tee_type, "Intel TDX");
    assert!(r.ppid_extracted);
    assert_eq!(r.platform_id_truncated.as_deref(), Some("a1b2c3d4e5f6..."));
    assert!(r.provider_match.found);
    assert_eq!(r.provider_match.provider.as_deref(), Some("Demo AWS"));
    assert!(r.error.is_none());
    assert_eq!(r.tcb_svn, "00000000000000000000000000000000");
    assert!(!r.tcb_regression && !r.migration_detected);
    assert!(r.registry_sig_valid);
    assert_eq!(r.trust_score, 100);
    assert!(!r.timestamp.is_empty());
}

#[test]
fn unknown_quote_verdict() {
    let (r, _) = verify_with_registry(UNKNOWN, &demo_registry(), None);
    assert!(r.valid);
    assert_eq!(r.status, "Unknown");
    assert!(!r.provider_match.found);
    assert!(r.provider_match.provider.is_none());
    assert_eq!(r.trust_score, 75);
    assert_eq!(r.platform_id_truncated.as_deref(), Some("ffffffffffff..."));
}

#[test]
fn invalid_quote_verdict() {
    let (r, rec) = verify_with_registry("deadbeef", &demo_registry(), Some(&Vec::new()));
    assert!(rec.is_none());
    assert!(!r.valid);
    assert_eq!(r.status, "Invalid");
    assert_eq!(r.tee_type, "Unknown");
    assert!(!r.ppid_extracted);
    assert!(r.platform_id_truncated.is_none());
    assert_eq!(
        r.error.as_deref(),
        Some("Quote too short (need at least 32 hex chars for Platform ID)")
    );
    assert_eq!(r.tcb_svn, "");
    assert_eq!(r.trust_score, 0);
    assert!(r.registry_sig_valid);
}

#[test]
fn verify_reports_registry_load_failure() {
    let r = verify(TRUSTED, Err("No such file or directory (os error 2)".to_string()));
    assert_eq!(r.status, "Invalid");
    assert_eq!(
        r.error.as_deref(),
        Some("Failed to load registry: No such file or directory (os error 2)")
    );
    let ok = verify(TRUSTED, Ok(demo_registry()));
    assert_eq!(ok.status, "Trusted");
}

#[test]
fn history_record_and_migration() {
    let history = vec![record("ffffffffffffffffffffffffffffffff", "00000000000000000000000000000000")];
    let (r, rec) = verify_with_registry(TRUSTED, &demo_registry(), Some(&history));
    assert!(r.migration_detected);
    assert!(!r.tcb_regression);
    assert_eq!(r.trust_score, 95);
    let rec = rec.unwrap();
    assert_eq!(rec.ppid, "a1b2c3d4e5f6789012345678abcdef01");
    assert_eq!(rec.tcb_svn, "00000000000000000000000000000000");
    assert_eq!(rec.mr_td, "0".repeat(96));
    assert_eq!(rec.provider.as_deref(), Some("Demo AWS"));

    // Verifying the same quote again, with its record stored most recently.
    let mut later = vec![rec];
    later.extend(history);
    let (again, _) = verify_with_registry(TRUSTED, &demo_registry(), Some(&later));
    assert!(!again.migration_detected);
    assert!(!again.tcb_regression);
    assert_eq!(again.trust_score, 100);
}

#[test]
fn history_regression_lowers_score() {
    let history = vec![record("a1b2c3d4e5f6789012345678abcdef01", "01000000000000000000000000000000")];
    let (r, _) = verify_with_registry(TRUSTED, &demo_registry(), Some(&history));
    assert!(r.tcb_regression);
    assert!(!r.migration_detected);
    assert_eq!(r.trust_score, 85);
}

#[test]
fn regression_detection() {
    let records = vec![
        record("other", "ff"),
        record("p", "0102"),
        record("p", " 0203 "),
        record("p", "0300"),
    ];
    assert!(detect_regression(&records, "p", "0303").is_none());
    let e = detect_regression(&records, "p", "0202").unwrap();
    assert_eq!(e.previous_svn, " 0203 ");
    assert_eq!(e.current_svn, "0202");
    let e = detect_regression(&records, "p", "0205").unwrap();
    assert_eq!(e.previous_svn, "0300");
    // Stored values that are not hex decode to nothing and never regress.
    assert!(detect_regression(&vec![record("p", "zz")], "p", "00").is_none());
    // A current value that is not hex leaves nothing to compare.
    assert!(detect_regression(&records, "p", "xyz").is_none());
    // Exact PPID match only.
    assert!(detect_regression(&records, "P", "0000").is_none());
}

#[test]
fn migration_detection() {
    assert!(detect_migration(&Vec::new(), "abc").is_none());
    assert!(detect_migration(&vec![record(" ABC ", "")], "abc").is_none());
    let e = detect_migration(&vec![record("abd", ""), record("abc", "")], "abc").unwrap();
    assert_eq!(e.previous_ppid, "abd");
    assert_eq!(e.current_ppid, "abc");
}

#[test]
fn verdict_svn_hex_decodes_to_quote_svn() {
    let mut bytes = vec![0u8; 300];
    bytes[28] = 1;
    for i in 270..286 {
        bytes[i] = (i - 260) as u8;
    }
    let quote = hex::encode(&bytes);
    let parsed = trustverify::parser::parse_quote(&quote).unwrap();
    let (r, rec) = verify_with_registry(&quote, &demo_registry(), Some(&Vec::new()));
    assert_eq!(hex::decode(&r.tcb_svn).unwrap(), parsed.tcb_svn.to_vec());
    let rec = rec.unwrap();
    // Storing the record and verifying a quote whose TCB SVN is lower reports a regression.
    let mut lower = bytes.clone();
    lower[270] = 0;
    let (r2, _) = verify_with_registry(&hex::encode(&lower), &demo_registry(), Some(&vec![rec]));
    assert!(r2.tcb_regression);
    assert_eq!(r2.trust_score, 50 + 15 - 15 + 5 + 5);
}

#[test]
fn migration_compares_normalized_ppid() {
    let history = vec![record(" A1B2C3D4E5F6789012345678ABCDEF01\n", "00")];
    let (r, _) = verify_with_registry(TRUSTED, &demo_registry(), Some(&history));
    assert!(!r.migration_detected);
    let history = vec![record("a1b2c3d4e5f6789012345678abcdef02", "00")];
    let (r, _) = verify_with_registry(TRUSTED, &demo_registry(), Some(&history));
    assert!(r.migration_detected);
}

#[test]
fn clock_readings_are_stored_as_given() {
    let (r, rec) = verify_with_registry_at(
        TRUSTED,
        &demo_registry(),
        Some(&Vec::new()),
        "2025-03-10T12:00:00+00:00".to_string(),
        "2025-03-10T11:59:59+00:00".to_string(),
    );
    assert_eq!(r.timestamp, "2025-03-10T12:00:00+00:00");
    assert_eq!(rec.unwrap().timestamp, "2025-03-10T11:59:59+00:00");
    let (bad, none) = verify_with_registry_at("zz", &demo_registry(), None, "t1".to_string(), "t0".to_string());
    assert_eq!(bad.timestamp, "t1");
    assert!(none.is_none());
    let v = verify_at(TRUSTED, Err("gone".to_string()), "t2".to_string());
    assert_eq!(v.timestamp, "t2");
    assert_eq!(v.error.as_deref(), Some("Failed to load registry: gone"));
    assert_eq!(verify_at(TRUSTED, Ok(demo_registry()), "t3".to_string()).timestamp, "t3");
}

#[test]
fn latest_svn_of_records() {
    assert_eq!(latest_svn(&Vec::new()), "");
    assert_eq!(latest_svn(&vec![record("a", "0102"), record("a", "0304")]), "0102");
}
