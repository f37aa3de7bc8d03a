//! Verification engine: parse quote → extract Platform ID → registry lookup → history.
use vstd::prelude::*;
use crate::encoding::hex_encode_spec;
use crate::history::{
    detect_migration, detect_regression, migration_spec, records_model, regresses,
    regression_iff_some_record_higher, regression_spec, same_svn_never_regresses, svn_bytes,
    svn_hex_roundtrip, svn_higher, QuoteRecord, RecordModel,
};
use crate::parser::{
    parsed_platform_id_is_lower_hex, platform_id_is_normalized, mr_td_to_hex, parse_quote, parse_quote_spec, tcb_svn_to_hex,
};
use crate::registry::{
    entry_signature_valid, found_iff_listed, id_key, is_first_match, match_of, lookup_provider, lookup_spec, no_match, ProviderMatch,
    ProviderMatchModel, Registry, RegistryModel,
};
use crate::text::{chars_of, is_ascii_text, push_char};

verus! {

/// Full verification result returned to API/CLI.
#[derive(Debug, Clone)]
pub struct VerificationResult {
    pub valid: bool,
    pub tee_type: String,
    pub ppid_extracted: bool,
    pub platform_id_truncated: Option<String>,
    pub provider_match: ProviderMatch,
    pub status: String,
    pub error: Option<String>,
    pub timestamp: String,
    /// TCB SVN hex (from quote).
    pub tcb_svn: String,
    /// True if a previously seen TCB SVN was higher (regression).
    pub tcb_regression: bool,
    /// True if last stored quote had a different PPID (migration).
    pub migration_detected: bool,
    /// True if registry entry had no signature or signature verified.
    pub registry_sig_valid: bool,
    /// Composite trust score 0–100.
    pub trust_score: u8,
}

/// Mathematical model of a verification result; the timestamp, which comes
/// from the clock, is left out.
pub struct ResultModel {
    pub valid: bool,
    pub tee_type: Seq<char>,
    pub ppid_extracted: bool,
    pub platform_id_truncated: Option<Seq<char>>,
    pub provider_match: ProviderMatchModel,
    pub status: Seq<char>,
    pub error: Option<Seq<char>>,
    pub tcb_svn: Seq<char>,
    pub tcb_regression: bool,
    pub migration_detected: bool,
    pub registry_sig_valid: bool,
    pub trust_score: u8,
}

impl View for VerificationResult {
    type V = ResultModel;

    open spec fn view(&self) -> ResultModel {
        ResultModel {
            valid: self.valid,
            tee_type: self.tee_type@,
            ppid_extracted: self.ppid_extracted,
            platform_id_truncated: self.platform_id_truncated.deep_view(),
            provider_match: self.provider_match@,
            status: self.status@,
            error: self.error.deep_view(),
            tcb_svn: self.tcb_svn@,
            tcb_regression: self.tcb_regression,
            migration_detected: self.migration_detected,
            registry_sig_valid: self.registry_sig_valid,
            trust_score: self.trust_score,
        }
    }
}

/// Calls `chrono::Utc::now().to_rfc3339()`: the current time as RFC 3339 text.
/// Nothing is stated of the result, which depends on the clock.
#[verifier::external_body]
fn chrono_timestamp() -> String {
    chrono::Utc::now().to_rfc3339()
}

/// Composite trust score: 0 for an invalid quote; otherwise 50, plus 25 when the
/// provider is in the registry, 15 without TCB regression, 5 without migration,
/// and 5 when the registry entry's signature holds (at most 100 in all).
pub open spec fn trust_score_spec(
    valid: bool,
    provider_found: bool,
    tcb_regression: bool,
    migration_detected: bool,
    registry_sig_valid: bool,
) -> int {
    if !valid {
        0
    } else {
        50 + (if provider_found { 25int } else { 0 }) + (if !tcb_regression { 15int } else { 0 })
            + (if !migration_detected { 5int } else { 0 }) + (if registry_sig_valid { 5int } else { 0 })
    }
}

/// Compute trust score 0–100 from verification state.
pub fn compute_trust_score(
    valid: bool,
    provider_found: bool,
    tcb_regression: bool,
    migration_detected: bool,
    registry_sig_valid: bool,
) -> (score: u8)
    ensures
        score == trust_score_spec(
            valid,
            provider_found,
            tcb_regression,
            migration_detected,
            registry_sig_valid,
        ),
        score <= 100,
        score == 0 <==> !valid,
{
    if !valid {
        return 0;
    }
    let mut score: u8 = 50;  // base for valid quote
    if provider_found {
        score = score.saturating_add(25);
    }
    if !tcb_regression {
        score = score.saturating_add(15);
    }
    if !migration_detected {
        score = score.saturating_add(5);
    }
    if registry_sig_valid {
        score = score.saturating_add(5);
    }
    if score < 100 {
        score
    } else {
        100
    }
}

/// The displayed form of a Platform ID: at most 12 characters, followed by
/// `...` when it was longer.
pub open spec fn truncated_text(hex: Seq<char>) -> Seq<char> {
    if hex.len() <= 12 {
        hex
    } else {
        hex.take(12) + "..."@
    }
}

/// The displayed form of a Platform ID (ASCII text, whose byte and character
/// counts agree).
fn truncate_platform_id(hex: &str) -> (r: String)
    requires
        is_ascii_text(hex@),
    ensures
        r@ == truncated_text(hex@),
{
    let chars = chars_of(hex);
    let mut r = String::new();
    let n = if chars.len() <= 12 {
        chars.len()
    } else {
        12
    };
    for i in 0..n
        invariant
            n <= chars@.len(),
            r@ == chars@.take(i as int),
    {
        push_char(&mut r, chars[i]);
        assert(r@ =~= chars@.take(i + 1));
    }
    if chars.len() > 12 {
        r.append("...");
        proof {
            reveal_strlit("...");
        }
    }
    assert(r@ =~= truncated_text(hex@));
    r
}

/// The verdict for a quote that could not be parsed.
pub open spec fn invalid_model(error: Seq<char>) -> ResultModel {
    ResultModel {
        valid: false,
        tee_type: "Unknown"@,
        ppid_extracted: false,
        platform_id_truncated: None,
        provider_match: no_match(),
        status: "Invalid"@,
        error: Some(error),
        tcb_svn: Seq::empty(),
        tcb_regression: false,
        migration_detected: false,
        registry_sig_valid: true,
        trust_score: 0,
    }
}

/// The verdict for a parsed quote, given the lookup result and what the history
/// showed.
pub open spec fn parsed_model(
    platform_id_hex: Seq<char>,
    tcb_svn_hex: Seq<char>,
    pm: ProviderMatchModel,
    tcb_regression: bool,
    migration_detected: bool,
) -> ResultModel {
    let registry_sig_valid = match pm.signature_valid {
        Some(b) => b,
        None => true,
    };
    let trust_score = trust_score_spec(
        true,
        pm.found,
        tcb_regression,
        migration_detected,
        registry_sig_valid,
    ) as u8;
    ResultModel {
        valid: true,
        tee_type: "Intel TDX"@,
        ppid_extracted: true,
        platform_id_truncated: Some(truncated_text(platform_id_hex)),
        provider_match: if pm.found { pm } else { no_match() },
        status: if pm.found { "Trusted"@ } else { "Unknown"@ },
        error: None,
        tcb_svn: tcb_svn_hex,
        tcb_regression,
        migration_detected,
        registry_sig_valid: if pm.found { registry_sig_valid } else { true },
        trust_score,
    }
}

/// Whether the history shows a TCB regression for the quote.
pub open spec fn history_regression(
    history: Option<Seq<RecordModel>>,
    platform_id_hex: Seq<char>,
    tcb_svn_hex: Seq<char>,
) -> bool {
    match history {
        Some(records) => regression_spec(records, platform_id_hex, tcb_svn_hex) is Some,
        None => false,
    }
}

/// Whether the history shows a migration for the quote.
pub open spec fn history_migration(history: Option<Seq<RecordModel>>, platform_id_hex: Seq<char>) -> bool {
    match history {
        Some(records) => migration_spec(records, platform_id_hex) is Some,
        None => false,
    }
}

/// The verdict on quote text `quote` against `registry`, with `history` the
/// stored records (most recent first) when a history store is in use.
pub open spec fn verification_spec(
    quote: Seq<char>,
    registry: RegistryModel,
    history: Option<Seq<RecordModel>>,
) -> ResultModel {
    match parse_quote_spec(quote) {
        Err(e) => invalid_model(e.message()),
        Ok(q) => {
            let tcb_svn_hex = hex_encode_spec(q.tcb_svn);
            parsed_model(
                q.platform_id_hex,
                tcb_svn_hex,
                lookup_spec(registry, q.platform_id_hex),
                history_regression(history, q.platform_id_hex, tcb_svn_hex),
                history_migration(history, q.platform_id_hex),
            )
        },
    }
}

/// The record that verifying `quote` adds to the history, apart from its
/// timestamp; `None` when the quote does not parse.
pub open spec fn record_spec(quote: Seq<char>, registry: RegistryModel) -> Option<RecordModel> {
    match parse_quote_spec(quote) {
        Err(e) => None,
        Ok(q) => Some(
            RecordModel {
                ppid: q.platform_id_hex,
                tcb_svn: hex_encode_spec(q.tcb_svn),
                mr_td: hex_encode_spec(q.mr_td),
                timestamp: Seq::empty(),
                provider: lookup_spec(registry, q.platform_id_hex).provider,
            },
        ),
    }
}

/// The history records as the specification sees them.
pub open spec fn history_model(history: Option<&Vec<QuoteRecord>>) -> Option<Seq<RecordModel>> {
    match history {
        Some(h) => Some(records_model(h@)),
        None => None,
    }
}

/// `rec` agrees with `m` on every field but the timestamp.
pub open spec fn same_record_content(rec: RecordModel, m: RecordModel) -> bool {
    &&& rec.ppid == m.ppid
    &&& rec.tcb_svn == m.tcb_svn
    &&& rec.mr_td == m.mr_td
    &&& rec.provider == m.provider
}

impl VerificationResult {
    fn build(
        valid: bool,
        tee_type: &str,
        ppid_extracted: bool,
        platform_id_truncated: Option<String>,
        provider_match: ProviderMatch,
        status: &str,
        error: Option<String>,
        tcb_svn: String,
        tcb_regression: bool,
        migration_detected: bool,
        registry_sig_valid: bool,
        trust_score: u8,
        timestamp: String,
    ) -> (r: Self)
        ensures
            r.timestamp == timestamp,
            r@ == (ResultModel {
                valid,
                tee_type: tee_type@,
                ppid_extracted,
                platform_id_truncated: platform_id_truncated.deep_view(),
                provider_match: provider_match@,
                status: status@,
                error: error.deep_view(),
                tcb_svn: tcb_svn@,
                tcb_regression,
                migration_detected,
                registry_sig_valid,
                trust_score,
            }),
    {
        Self {
            valid,
            tee_type: String::from_str(tee_type),
            ppid_extracted,
            platform_id_truncated,
            provider_match,
            status: String::from_str(status),
            error,
            timestamp,
            tcb_svn,
            tcb_regression,
            migration_detected,
            registry_sig_valid,
            trust_score,
        }
    }

    fn trusted(
        provider_match: ProviderMatch,
        platform_id_truncated: Option<String>,
        tcb_svn: String,
        tcb_regression: bool,
        migration_detected: bool,
        registry_sig_valid: bool,
        trust_score: u8,
        timestamp: String,
    ) -> (r: Self)
        ensures
            r.timestamp == timestamp,
            r@ == (ResultModel {
                valid: true,
                tee_type: "Intel TDX"@,
                ppid_extracted: true,
                platform_id_truncated: platform_id_truncated.deep_view(),
                provider_match: provider_match@,
                status: "Trusted"@,
                error: None,
                tcb_svn: tcb_svn@,
                tcb_regression,
                migration_detected,
                registry_sig_valid,
                trust_score,
            }),
    {
        Self::build(
            true,
            "Intel TDX",
            true,
            platform_id_truncated,
            provider_match,
            "Trusted",
            None,
            tcb_svn,
            tcb_regression,
            migration_detected,
            registry_sig_valid,
            trust_score,
            timestamp,
        )
    }

    fn unknown(
        platform_id_truncated: Option<String>,
        tcb_svn: String,
        tcb_regression: bool,
        migration_detected: bool,
        trust_score: u8,
        timestamp: String,
    ) -> (r: Self)
        ensures
            r.timestamp == timestamp,
            r@ == (ResultModel {
                valid: true,
                tee_type: "Intel TDX"@,
                ppid_extracted: true,
                platform_id_truncated: platform_id_truncated.deep_view(),
                provider_match: no_match(),
                status: "Unknown"@,
                error: None,
                tcb_svn: tcb_svn@,
                tcb_regression,
                migration_detected,
                registry_sig_valid: true,
                trust_score,
            }),
    {
        Self::build(
            true,
            "Intel TDX",
            true,
            platform_id_truncated,
            ProviderMatch::not_found(),
            "Unknown",
            None,
            tcb_svn,
            tcb_regression,
            migration_detected,
            true,
            trust_score,
            timestamp,
        )
    }

    fn invalid(error: String, timestamp: String) -> (r: Self)
        ensures
            r.timestamp == timestamp,
            r@ == invalid_model(error@),
    {
        let r = Self::build(
            false,
            "Unknown",
            false,
            None,
            ProviderMatch::not_found(),
            "Invalid",
            Some(error),
            String::new(),
            false,
            false,
            true,
            0,
            timestamp,
        );
        assert(r@.tcb_svn =~= Seq::<char>::empty());
        r
    }
}

/// A copy of an optional text.
fn clone_text(t: &Option<String>) -> (r: Option<String>)
    ensures
        r.deep_view() == t.deep_view(),
{
    match t {
        Some(s) => Some(s.clone()),
        None => None,
    }
}

/// Verify a quote using an already-loaded registry and, when a history store is
/// in use, the records it holds (most recent first), with the clock readings
/// given: `now` stamps the verdict and `record_time` the record. Returns the
/// verdict and, when a history store is in use and the quote parsed, the record
/// to add to it.
pub fn verify_with_registry_at(
    quote: &str,
    registry: &Registry,
    history: Option<&Vec<QuoteRecord>>,
    now: String,
    record_time: String,
) -> (out: (VerificationResult, Option<QuoteRecord>))
    ensures
        out.0.timestamp == now,
        out.1 matches Some(rec) ==> rec.timestamp == record_time,
        out.0@ == verification_spec(quote@, registry@, history_model(history)),
        match out.1 {
            Some(rec) => history is Some && (record_spec(quote@, registry@) matches Some(m)
                && same_record_content(rec@, m)),
            None => history is None || record_spec(quote@, registry@) is None,
        },
        parse_quote_spec(quote@) matches Ok(q) ==> (out.0.migration_detected <==> (
        history matches Some(h) && h@.len() > 0 && id_key(h@[0].ppid@) != q.platform_id_hex)),
{
    let parsed = match parse_quote(quote) {
        Ok(p) => p,
        Err(e) => {
            return (VerificationResult::invalid(e.to_string(), now), None);
        },
    };
    proof {
        parsed_platform_id_is_lower_hex(quote@);
        platform_id_is_normalized(parsed.platform_id_hex@);
    }
    let tcb_svn_hex = tcb_svn_to_hex(&parsed.tcb_svn);
    let mr_td_hex = mr_td_to_hex(&parsed.mr_td);
    let truncated = Some(truncate_platform_id(parsed.platform_id_hex.as_str()));
    let provider_match = lookup_provider(registry, parsed.platform_id_hex.as_str());

    let tcb_regression = match history {
        Some(h) => detect_regression(h, parsed.platform_id_hex.as_str(), tcb_svn_hex.as_str()).is_some(),
        None => false,
    };
    let migration_detected = match history {
        Some(h) => detect_migration(h, parsed.platform_id_hex.as_str()).is_some(),
        None => false,
    };

    let registry_sig_valid = match provider_match.signature_valid {
        Some(b) => b,
        None => true,
    };

    let record = match history {
        Some(_) => Some(
            QuoteRecord {
                ppid: parsed.platform_id_hex.clone(),
                tcb_svn: tcb_svn_hex.clone(),
                mr_td: mr_td_hex,
                timestamp: record_time,
                provider: clone_text(&provider_match.provider),
            },
        ),
        None => None,
    };

    let trust_score = compute_trust_score(
        true,
        provider_match.found,
        tcb_regression,
        migration_detected,
        registry_sig_valid,
    );

    let result = if provider_match.found {
        VerificationResult::trusted(
            provider_match,
            truncated,
            tcb_svn_hex,
            tcb_regression,
            migration_detected,
            registry_sig_valid,
            trust_score,
            now,
        )
    } else {
        VerificationResult::unknown(
            truncated,
            tcb_svn_hex,
            tcb_regression,
            migration_detected,
            trust_score,
            now,
        )
    };
    (result, record)
}

/// Verify a quote using an already-loaded registry and, when a history store is
/// in use, the records it holds (most recent first). Returns the verdict and,
/// when a history store is in use and the quote parsed, the record to add to it.
/// Both carry the clock reading taken for them, which nothing here states.
pub fn verify_with_registry(
    quote: &str,
    registry: &Registry,
    history: Option<&Vec<QuoteRecord>>,
) -> (out: (VerificationResult, Option<QuoteRecord>))
    ensures
        out.0@ == verification_spec(quote@, registry@, history_model(history)),
        match out.1 {
            Some(rec) => history is Some && (record_spec(quote@, registry@) matches Some(m)
                && same_record_content(rec@, m)),
            None => history is None || record_spec(quote@, registry@) is None,
        },
        parse_quote_spec(quote@) matches Ok(q) ==> (out.0.migration_detected <==> (
        history matches Some(h) && h@.len() > 0 && id_key(h@[0].ppid@) != q.platform_id_hex)),
{
    let record_time = chrono_timestamp();
    let now = chrono_timestamp();
    verify_with_registry_at(quote, registry, history, now, record_time)
}

/// Verify a quote against a registry that was loaded from a file, or report why
/// loading failed (`loaded` holds the loader's error message), stamping the
/// verdict with the clock reading `now`.
pub fn verify_at(quote: &str, loaded: Result<Registry, String>, now: String) -> (r: VerificationResult)
    ensures
        r.timestamp == now,
        match loaded {
            Ok(registry) => r@ == verification_spec(quote@, registry@, None),
            Err(e) => r@ == invalid_model("Failed to load registry: "@ + e@),
        },
{
    match loaded {
        Ok(registry) => verify_with_registry_at(quote, &registry, None, now, String::new()).0,
        Err(e) => {
            let mut message = String::from_str("Failed to load registry: ");
            message.append(e.as_str());
            VerificationResult::invalid(message, now)
        },
    }
}

/// Verify a quote against a registry that was loaded from a file, or report why
/// loading failed (`loaded` holds the loader's error message). The verdict
/// carries the clock reading taken for it, which nothing here states.
pub fn verify(quote: &str, loaded: Result<Registry, String>) -> (r: VerificationResult)
    ensures
        match loaded {
            Ok(registry) => r@ == verification_spec(quote@, registry@, None),
            Err(e) => r@ == invalid_model("Failed to load registry: "@ + e@),
        },
{
    verify_at(quote, loaded, chrono_timestamp())
}

/// The trust score lies in 0..=100, is zero exactly for invalid quotes, and
/// never drops when a signal improves (provider found, no regression, no
/// migration, signature valid).
pub proof fn trust_score_laws(
    valid: bool,
    provider_found: bool,
    tcb_regression: bool,
    migration_detected: bool,
    registry_sig_valid: bool,
)
    ensures
        0 <= trust_score_spec(valid, provider_found, tcb_regression, migration_detected, registry_sig_valid) <= 100,
        trust_score_spec(valid, provider_found, tcb_regression, migration_detected, registry_sig_valid) == 0 <==> !valid,
        trust_score_spec(valid, true, tcb_regression, migration_detected, registry_sig_valid)
            >= trust_score_spec(valid, provider_found, tcb_regression, migration_detected, registry_sig_valid),
        trust_score_spec(valid, provider_found, false, migration_detected, registry_sig_valid)
            >= trust_score_spec(valid, provider_found, tcb_regression, migration_detected, registry_sig_valid),
        trust_score_spec(valid, provider_found, tcb_regression, false, registry_sig_valid)
            >= trust_score_spec(valid, provider_found, tcb_regression, migration_detected, registry_sig_valid),
        trust_score_spec(valid, provider_found, tcb_regression, migration_detected, true)
            >= trust_score_spec(valid, provider_found, tcb_regression, migration_detected, registry_sig_valid),
        trust_score_spec(true, true, false, false, true) == 100,
{
}

/// The verdict's status: `Invalid` exactly when the quote does not parse (then
/// it is not valid and scores 0); otherwise it is valid, scores above 0, and is
/// `Trusted` when the Platform ID is in the registry and `Unknown` when not.
pub proof fn status_follows_parse_and_lookup(
    quote: Seq<char>,
    registry: RegistryModel,
    history: Option<Seq<RecordModel>>,
)
    ensures
        ({
            let r = verification_spec(quote, registry, history);
            match parse_quote_spec(quote) {
                Err(e) => r.status == "Invalid"@ && !r.valid && r.trust_score == 0
                    && r.error == Some(e.message()),
                Ok(q) => r.valid && r.trust_score > 0 && r.error is None && (r.status == "Trusted"@
                    <==> lookup_spec(registry, q.platform_id_hex).found) && (r.status
                    == "Unknown"@ <==> !lookup_spec(registry, q.platform_id_hex).found),
            }
        }),
{
    reveal_strlit("Trusted");
    reveal_strlit("Unknown");
    if let Ok(q) = parse_quote_spec(quote) {
        let pm = lookup_spec(registry, q.platform_id_hex);
        let sig = match pm.signature_valid {
            Some(b) => b,
            None => true,
        };
        let tcb_svn_hex = hex_encode_spec(q.tcb_svn);
        trust_score_laws(
            true,
            pm.found,
            history_regression(history, q.platform_id_hex, tcb_svn_hex),
            history_migration(history, q.platform_id_hex),
            sig,
        );
        assert("Trusted"@ != "Unknown"@) by {
            assert("Trusted"@[0] != "Unknown"@[0]);
        }
    }
}

/// A quote is reported `Trusted` exactly when it parses and some registry entry
/// carries its Platform ID (compared trimmed and lowercased).
pub proof fn trusted_iff_registered(
    quote: Seq<char>,
    registry: RegistryModel,
    history: Option<Seq<RecordModel>>,
)
    ensures
        verification_spec(quote, registry, history).status == "Trusted"@ <==> (parse_quote_spec(
            quote,
        ) matches Ok(q) && exists|i: int|
            0 <= i < registry.entries.len() && id_key(
                #[trigger] registry.entries[i].platform_id_hex,
            ) == id_key(q.platform_id_hex)),
{
    status_follows_parse_and_lookup(quote, registry, history);
    reveal_strlit("Trusted");
    reveal_strlit("Invalid");
    assert("Trusted"@ != "Invalid"@) by {
        assert("Trusted"@[0] != "Invalid"@[0]);
    }
    if let Ok(q) = parse_quote_spec(quote) {
        found_iff_listed(registry, q.platform_id_hex);
    }
}

/// With a history store, a TCB regression is reported exactly when some stored
/// record of the quote's Platform ID has a TCB SVN byte above the quote's own
/// TCB SVN byte at the same position.
pub proof fn regression_against_quote_svn(
    quote: Seq<char>,
    registry: RegistryModel,
    records: Seq<RecordModel>,
)
    requires
        parse_quote_spec(quote) is Ok,
    ensures
        ({
            let q = parse_quote_spec(quote)->Ok_0;
            verification_spec(quote, registry, Some(records)).tcb_regression <==> exists|i: int|
                0 <= i < records.len() && #[trigger] records[i].ppid == q.platform_id_hex
                    && svn_higher(svn_bytes(records[i].tcb_svn), q.tcb_svn)
        }),
{
    let q = parse_quote_spec(quote)->Ok_0;
    let tcb = hex_encode_spec(q.tcb_svn);
    svn_hex_roundtrip(q.tcb_svn);
    regression_iff_some_record_higher(records, q.platform_id_hex, tcb);
    if exists|i: int|
        0 <= i < records.len() && #[trigger] records[i].ppid == q.platform_id_hex && svn_higher(
            svn_bytes(records[i].tcb_svn),
            q.tcb_svn,
        ) {
        let i = choose|i: int|
            0 <= i < records.len() && #[trigger] records[i].ppid == q.platform_id_hex
                && svn_higher(svn_bytes(records[i].tcb_svn), q.tcb_svn);
        assert(regresses(records[i], q.platform_id_hex, tcb));
    }
}

/// Without a history store, neither a TCB regression nor a migration is reported.
pub proof fn no_history_no_events(quote: Seq<char>, registry: RegistryModel)
    ensures
        !verification_spec(quote, registry, None).tcb_regression,
        !verification_spec(quote, registry, None).migration_detected,
{
}

/// Verifying the same quote again, once its record has been stored: the new
/// record is the most recent, so no migration is reported, and it does not
/// change whether a TCB regression is reported.
pub proof fn repeated_quote_adds_no_events(
    quote: Seq<char>,
    registry: RegistryModel,
    records: Seq<RecordModel>,
    added: RecordModel,
)
    requires
        record_spec(quote, registry) matches Some(m) && same_record_content(added, m),
    ensures
        !verification_spec(quote, registry, Some(seq![added] + records)).migration_detected,
        verification_spec(quote, registry, Some(seq![added] + records)).tcb_regression
            == verification_spec(quote, registry, Some(records)).tcb_regression,
{
    let q = parse_quote_spec(quote)->Ok_0;
    let tcb = hex_encode_spec(q.tcb_svn);
    let all = seq![added] + records;
    same_svn_never_regresses(added, q.platform_id_hex);
    regression_iff_some_record_higher(all, q.platform_id_hex, tcb);
    regression_iff_some_record_higher(records, q.platform_id_hex, tcb);
    if exists|i: int| 0 <= i < records.len() && regresses(#[trigger] records[i], q.platform_id_hex, tcb) {
        let i = choose|i: int| 0 <= i < records.len() && regresses(#[trigger] records[i], q.platform_id_hex, tcb);
        assert(all[i + 1] == records[i]);
    }
    if exists|i: int| 0 <= i < all.len() && regresses(#[trigger] all[i], q.platform_id_hex, tcb) {
        let i = choose|i: int| 0 <= i < all.len() && regresses(#[trigger] all[i], q.platform_id_hex, tcb);
        assert(i != 0);
        assert(records[i - 1] == all[i]);
    }
}

/// Each signal moves the trust score of a valid quote by its own fixed amount,
/// whatever the other signals are: 25 for a listed provider, 15 for the absence
/// of a TCB regression, 5 for the absence of a migration, 5 for a sound registry
/// signature, from a base of 50 with every signal bad; an invalid quote scores 0.
pub proof fn trust_score_is_additive(
    provider_found: bool,
    tcb_regression: bool,
    migration_detected: bool,
    registry_sig_valid: bool,
)
    ensures
        trust_score_spec(false, provider_found, tcb_regression, migration_detected, registry_sig_valid) == 0,
        trust_score_spec(true, false, true, true, false) == 50,
        trust_score_spec(true, true, tcb_regression, migration_detected, registry_sig_valid)
            == trust_score_spec(true, false, tcb_regression, migration_detected, registry_sig_valid) + 25,
        trust_score_spec(true, provider_found, false, migration_detected, registry_sig_valid)
            == trust_score_spec(true, provider_found, true, migration_detected, registry_sig_valid) + 15,
        trust_score_spec(true, provider_found, tcb_regression, false, registry_sig_valid)
            == trust_score_spec(true, provider_found, tcb_regression, true, registry_sig_valid) + 5,
        trust_score_spec(true, provider_found, tcb_regression, migration_detected, true)
            == trust_score_spec(true, provider_found, tcb_regression, migration_detected, false) + 5,
{
}

/// For a quote that parses, the verdict's `registry_sig_valid` is what the
/// registry lookup reports for the signature (true when it reports none): the
/// signature check of the first entry carrying the Platform ID, or true when no
/// entry does. Its trust score is 50, plus 25 when the provider was found, 15
/// without regression, 5 without migration and 5 when `registry_sig_valid`.
pub proof fn verdict_reports_registry_signature(
    quote: Seq<char>,
    registry: RegistryModel,
    history: Option<Seq<RecordModel>>,
)
    requires
        parse_quote_spec(quote) is Ok,
    ensures
        ({
            let q = parse_quote_spec(quote)->Ok_0;
            let r = verification_spec(quote, registry, history);
            let pm = lookup_spec(registry, q.platform_id_hex);
            &&& r.provider_match.found == pm.found
            &&& (pm.signature_valid matches Some(b) ==> r.registry_sig_valid == b)
            &&& (pm.signature_valid is None ==> r.registry_sig_valid)
            &&& (!pm.found ==> r.registry_sig_valid)
            &&& (pm.found ==> exists|i: int|
                is_first_match(registry.entries, id_key(q.platform_id_hex), i)
                    && r.registry_sig_valid == entry_signature_valid(#[trigger] registry.entries[i]))
            &&& r.trust_score as int == 50 + (if r.provider_match.found { 25int } else { 0 }) + (if !r.tcb_regression {
                15int
            } else {
                0
            }) + (if !r.migration_detected { 5int } else { 0 }) + (if r.registry_sig_valid {
                5int
            } else {
                0
            })
        }),
{
    let q = parse_quote_spec(quote)->Ok_0;
    let pm = lookup_spec(registry, q.platform_id_hex);
    found_iff_listed(registry, q.platform_id_hex);
    if pm.found {
        let key = id_key(q.platform_id_hex);
        let i = choose|i: int| is_first_match(registry.entries, key, i);
        assert(pm == match_of(registry.entries[i]));
    }
}

} // verus!
