//! Quote history: stored records, TCB regression and migration detection.
//!
//! The records themselves live in a store outside this crate; the functions here
//! decide, from the records that the store hands back, whether the TCB version
//! went backwards or the workload moved to other hardware.
use vstd::prelude::*;
use crate::encoding::{hex_decode, hex_decode_spec, hex_encode_spec, hex_roundtrip};
use crate::parser::lemma_hex_encode_lower;
use crate::registry::id_key;
use crate::text::{ascii_lower_text, is_ascii_text, is_lower_hex_digit, to_lowercase, trim, trim_end, trim_start, trim_str};

verus! {

/// A single stored quote record.
#[derive(Debug, Clone)]
pub struct QuoteRecord {
    pub ppid: String,
    pub tcb_svn: String,
    pub mr_td: String,
    pub timestamp: String,
    pub provider: Option<String>,
}

/// Mathematical model of a stored quote record.
pub struct RecordModel {
    pub ppid: Seq<char>,
    pub tcb_svn: Seq<char>,
    pub mr_td: Seq<char>,
    pub timestamp: Seq<char>,
    pub provider: Option<Seq<char>>,
}

impl View for QuoteRecord {
    type V = RecordModel;

    open spec fn view(&self) -> RecordModel {
        RecordModel {
            ppid: self.ppid@,
            tcb_svn: self.tcb_svn@,
            mr_td: self.mr_td@,
            timestamp: self.timestamp@,
            provider: self.provider.deep_view(),
        }
    }
}

/// TCB version went backwards (security regression).
#[derive(Debug, Clone)]
pub struct RegressionEvent {
    pub previous_svn: String,
    pub current_svn: String,
}

/// Mathematical model of a regression event.
pub struct RegressionModel {
    pub previous_svn: Seq<char>,
    pub current_svn: Seq<char>,
}

impl View for RegressionEvent {
    type V = RegressionModel;

    open spec fn view(&self) -> RegressionModel {
        RegressionModel { previous_svn: self.previous_svn@, current_svn: self.current_svn@ }
    }
}

/// PPID changed (VM migrated to different hardware).
#[derive(Debug, Clone)]
pub struct MigrationEvent {
    pub previous_ppid: String,
    pub current_ppid: String,
}

/// Mathematical model of a migration event.
pub struct MigrationModel {
    pub previous_ppid: Seq<char>,
    pub current_ppid: Seq<char>,
}

impl View for MigrationEvent {
    type V = MigrationModel;

    open spec fn view(&self) -> MigrationModel {
        MigrationModel { previous_ppid: self.previous_ppid@, current_ppid: self.current_ppid@ }
    }
}

/// The bytes of a hex TCB SVN after trimming; empty when it is not valid hex.
pub open spec fn svn_bytes(svn_hex: Seq<char>) -> Seq<u8> {
    match hex_decode_spec(trim(svn_hex)) {
        Some(b) => b,
        None => Seq::empty(),
    }
}

/// Some byte of `stored` is greater than the byte of `current` at the same
/// position (positions beyond the shorter of the two are not compared).
pub open spec fn svn_higher(stored: Seq<u8>, current: Seq<u8>) -> bool {
    exists|k: int| 0 <= k < stored.len() && k < current.len() && #[trigger] stored[k] > current[k]
}

/// Record `r` belongs to `ppid` and its TCB SVN is higher than `current_svn_hex`.
pub open spec fn regresses(r: RecordModel, ppid: Seq<char>, current_svn_hex: Seq<char>) -> bool {
    r.ppid == ppid && svn_higher(svn_bytes(r.tcb_svn), svn_bytes(current_svn_hex))
}

/// Record `i` is the first record that `regresses`.
pub open spec fn is_first_regression(
    records: Seq<RecordModel>,
    ppid: Seq<char>,
    current_svn_hex: Seq<char>,
    i: int,
) -> bool {
    &&& 0 <= i < records.len()
    &&& regresses(records[i], ppid, current_svn_hex)
    &&& forall|j: int| 0 <= j < i ==> !regresses(#[trigger] records[j], ppid, current_svn_hex)
}

/// The regression that `records` show for `ppid` against `current_svn_hex`: the
/// first record of that PPID with a higher TCB SVN, if there is one.
pub open spec fn regression_spec(
    records: Seq<RecordModel>,
    ppid: Seq<char>,
    current_svn_hex: Seq<char>,
) -> Option<RegressionModel> {
    if exists|i: int| is_first_regression(records, ppid, current_svn_hex, i) {
        let i = choose|i: int| is_first_regression(records, ppid, current_svn_hex, i);
        Some(RegressionModel { previous_svn: records[i].tcb_svn, current_svn: current_svn_hex })
    } else {
        None
    }
}

/// The migration that the most recent record shows against `current_ppid`: its
/// PPID differs from the current one once both are trimmed and lowercased.
pub open spec fn migration_spec(records: Seq<RecordModel>, current_ppid: Seq<char>) -> Option<MigrationModel> {
    if records.len() > 0 && id_key(records[0].ppid) != id_key(current_ppid) {
        Some(MigrationModel { previous_ppid: records[0].ppid, current_ppid })
    } else {
        None
    }
}

/// The models of a list of records.
pub open spec fn records_model(records: Seq<QuoteRecord>) -> Seq<RecordModel> {
    records.map_values(|r: QuoteRecord| r@)
}

/// The bytes of a hex TCB SVN after trimming; empty when it is not valid hex.
fn decode_svn(svn_hex: &str) -> (b: Vec<u8>)
    ensures
        b@ == svn_bytes(svn_hex@),
{
    let trimmed = trim_str(svn_hex);
    match hex_decode(trimmed.as_str()) {
        Some(b) => b,
        None => Vec::new(),
    }
}

/// Whether some byte of `stored` exceeds the byte of `current` at the same position.
fn svn_is_higher(stored: &Vec<u8>, current: &Vec<u8>) -> (r: bool)
    ensures
        r == svn_higher(stored@, current@),
{
    let n = if stored.len() < current.len() {
        stored.len()
    } else {
        current.len()
    };
    for k in 0..n
        invariant
            n <= stored@.len(),
            n <= current@.len(),
            forall|j: int| 0 <= j < k ==> !(#[trigger] stored@[j] > current@[j]),
    {
        if stored[k] > current[k] {
            return true;
        }
    }
    false
}

/// Regression = a stored record of `ppid` whose TCB SVN has a byte greater than
/// the current one at the same position (numeric comparison). `records` are the
/// stored records, most recent first; the first such record is reported.
pub fn detect_regression(records: &Vec<QuoteRecord>, ppid: &str, current_svn_hex: &str) -> (r: Option<RegressionEvent>)
    ensures
        match r {
            Some(e) => regression_spec(records_model(records@), ppid@, current_svn_hex@) == Some(e@),
            None => regression_spec(records_model(records@), ppid@, current_svn_hex@) is None,
        },
{
    let current_bytes = decode_svn(current_svn_hex);
    let wanted = String::from_str(ppid);
    let ghost models = records_model(records@);
    for i in 0..records.len()
        invariant
            models == records_model(records@),
            wanted@ == ppid@,
            current_bytes@ == svn_bytes(current_svn_hex@),
            forall|j: int| 0 <= j < i ==> !regresses(#[trigger] models[j], ppid@, current_svn_hex@),
    {
        let record = &records[i];
        assert(models[i as int] == record@);
        if record.ppid == wanted {
            let stored_bytes = decode_svn(record.tcb_svn.as_str());
            if svn_is_higher(&stored_bytes, &current_bytes) {
                assert(is_first_regression(models, ppid@, current_svn_hex@, i as int));
                assert forall|k: int| is_first_regression(models, ppid@, current_svn_hex@, k) implies k == i by {
                    if k > i {
                        assert(regresses(models[i as int], ppid@, current_svn_hex@));
                    }
                }
                return Some(
                    RegressionEvent {
                        previous_svn: record.tcb_svn.clone(),
                        current_svn: String::from_str(current_svn_hex),
                    },
                );
            }
        }
    }
    None
}

/// The TCB SVN of the most recent record (`records[0]`), or empty text when
/// there are no records: the value a history view compares the records against.
pub fn latest_svn(records: &Vec<QuoteRecord>) -> (svn: String)
    ensures
        records@.len() > 0 ==> svn@ == records@[0].tcb_svn@,
        records@.len() == 0 ==> svn@ == Seq::<char>::empty(),
{
    if records.len() > 0 {
        records[0].tcb_svn.clone()
    } else {
        String::new()
    }
}

/// Returns a migration event if the most recent record (`records[0]`) has a
/// different PPID, compared trimmed and lowercased (suggests migration).
pub fn detect_migration(records: &Vec<QuoteRecord>, current_ppid: &str) -> (r: Option<MigrationEvent>)
    ensures
        match r {
            Some(e) => migration_spec(records_model(records@), current_ppid@) == Some(e@),
            None => migration_spec(records_model(records@), current_ppid@) is None,
        },
        is_ascii_text(trim(current_ppid@)) ==> (r is Some <==> (records@.len() > 0 && id_key(
            records@[0].ppid@,
        ) != ascii_lower_text(trim(current_ppid@)))),
{
    if records.len() == 0 {
        return None;
    }
    let previous = &records[0];
    let previous_key = to_lowercase(trim_str(previous.ppid.as_str()).as_str());
    let current_key = to_lowercase(trim_str(current_ppid).as_str());
    if previous_key != current_key {
        Some(
            MigrationEvent {
                previous_ppid: previous.ppid.clone(),
                current_ppid: String::from_str(current_ppid),
            },
        )
    } else {
        None
    }
}

/// Some regressing record at or before index `i` makes a first one exist.
proof fn lemma_first_regression_exists(
    records: Seq<RecordModel>,
    ppid: Seq<char>,
    current_svn_hex: Seq<char>,
    i: int,
)
    requires
        0 <= i < records.len(),
        regresses(records[i], ppid, current_svn_hex),
    ensures
        exists|k: int| is_first_regression(records, ppid, current_svn_hex, k),
    decreases i,
{
    if exists|j: int| 0 <= j < i && regresses(#[trigger] records[j], ppid, current_svn_hex) {
        let j = choose|j: int| 0 <= j < i && regresses(#[trigger] records[j], ppid, current_svn_hex);
        lemma_first_regression_exists(records, ppid, current_svn_hex, j);
    } else {
        assert(is_first_regression(records, ppid, current_svn_hex, i));
    }
}

/// A regression is reported exactly when some stored record of the PPID has a
/// TCB SVN byte above the current one at the same position.
pub proof fn regression_iff_some_record_higher(
    records: Seq<RecordModel>,
    ppid: Seq<char>,
    current_svn_hex: Seq<char>,
)
    ensures
        regression_spec(records, ppid, current_svn_hex) is Some <==> exists|i: int|
            0 <= i < records.len() && regresses(#[trigger] records[i], ppid, current_svn_hex),
{
    if exists|i: int| 0 <= i < records.len() && regresses(#[trigger] records[i], ppid, current_svn_hex) {
        let i = choose|i: int|
            0 <= i < records.len() && regresses(#[trigger] records[i], ppid, current_svn_hex);
        lemma_first_regression_exists(records, ppid, current_svn_hex, i);
    }
}

/// Hexadecimal text of TCB SVN bytes, as verdicts and records carry it, is read
/// back as those same bytes when records are compared.
pub proof fn svn_hex_roundtrip(svn: Seq<u8>)
    ensures
        svn_bytes(hex_encode_spec(svn)) == svn,
{
    let t = hex_encode_spec(svn);
    hex_roundtrip(svn);
    lemma_hex_encode_lower(svn);
    if t.len() > 0 {
        assert(is_lower_hex_digit(t[0]));
        assert(is_lower_hex_digit(t[t.len() - 1]));
        assert(trim_start(t) == t);
        assert(trim_end(t) == t);
    }
}

/// A record never regresses against its own TCB SVN.
pub proof fn same_svn_never_regresses(r: RecordModel, ppid: Seq<char>)
    ensures
        !regresses(r, ppid, r.tcb_svn),
{
}

/// No migration is reported when the most recent record has the same PPID,
/// compared trimmed and lowercased.
pub proof fn same_ppid_is_no_migration(records: Seq<RecordModel>, current_ppid: Seq<char>)
    requires
        records.len() > 0,
        id_key(records[0].ppid) == id_key(current_ppid),
    ensures
        migration_spec(records, current_ppid) is None,
{
}

/// A regression is reported for `ppid` exactly when some stored record of that
/// PPID, its TCB SVN and the current one both decoding as hex (after trimming),
/// has a byte above the current one at some position both have, whatever the
/// bytes before that position; the reported record is the first such one.
pub proof fn regression_on_any_higher_byte(
    records: Seq<RecordModel>,
    ppid: Seq<char>,
    current_svn_hex: Seq<char>,
)
    ensures
        regression_spec(records, ppid, current_svn_hex) is Some <==> exists|i: int, k: int|
            0 <= i < records.len() && #[trigger] records[i].ppid == ppid && hex_decode_spec(
                trim(records[i].tcb_svn),
            ) is Some && hex_decode_spec(trim(current_svn_hex)) is Some && 0 <= k < hex_decode_spec(
                trim(records[i].tcb_svn),
            )->Some_0.len() && k < hex_decode_spec(trim(current_svn_hex))->Some_0.len()
                && #[trigger] hex_decode_spec(trim(records[i].tcb_svn))->Some_0[k]
                > hex_decode_spec(trim(current_svn_hex))->Some_0[k],
        regression_spec(records, ppid, current_svn_hex) matches Some(e) ==> e.current_svn
            == current_svn_hex && exists|i: int|
            0 <= i < records.len() && #[trigger] records[i].ppid == ppid && e.previous_svn
                == records[i].tcb_svn,
{
    regression_iff_some_record_higher(records, ppid, current_svn_hex);
    let c = svn_bytes(current_svn_hex);
    if exists|i: int| 0 <= i < records.len() && regresses(#[trigger] records[i], ppid, current_svn_hex) {
        let i = choose|i: int| 0 <= i < records.len() && regresses(#[trigger] records[i], ppid, current_svn_hex);
        let st = svn_bytes(records[i].tcb_svn);
        let k = choose|k: int| 0 <= k < st.len() && k < c.len() && #[trigger] st[k] > c[k];
        assert(hex_decode_spec(trim(records[i].tcb_svn)) is Some);
        assert(hex_decode_spec(trim(current_svn_hex)) is Some);
        assert(hex_decode_spec(trim(records[i].tcb_svn))->Some_0[k] > hex_decode_spec(
            trim(current_svn_hex),
        )->Some_0[k]);
    }
    if exists|i: int, k: int|
        0 <= i < records.len() && #[trigger] records[i].ppid == ppid && hex_decode_spec(
            trim(records[i].tcb_svn),
        ) is Some && hex_decode_spec(trim(current_svn_hex)) is Some && 0 <= k < hex_decode_spec(
            trim(records[i].tcb_svn),
        )->Some_0.len() && k < hex_decode_spec(trim(current_svn_hex))->Some_0.len()
            && #[trigger] hex_decode_spec(trim(records[i].tcb_svn))->Some_0[k]
            > hex_decode_spec(trim(current_svn_hex))->Some_0[k] {
        let (i, k) = choose|i: int, k: int|
            0 <= i < records.len() && #[trigger] records[i].ppid == ppid && hex_decode_spec(
                trim(records[i].tcb_svn),
            ) is Some && hex_decode_spec(trim(current_svn_hex)) is Some && 0 <= k < hex_decode_spec(
                trim(records[i].tcb_svn),
            )->Some_0.len() && k < hex_decode_spec(trim(current_svn_hex))->Some_0.len()
                && #[trigger] hex_decode_spec(trim(records[i].tcb_svn))->Some_0[k]
                > hex_decode_spec(trim(current_svn_hex))->Some_0[k];
        let st = svn_bytes(records[i].tcb_svn);
        assert(st[k] > c[k]);
        assert(svn_higher(st, c));
        assert(regresses(records[i], ppid, current_svn_hex));
    }
    if regression_spec(records, ppid, current_svn_hex) is Some {
        let i = choose|i: int| is_first_regression(records, ppid, current_svn_hex, i);
        assert(records[i].ppid == ppid);
    }
}

} // verus!
