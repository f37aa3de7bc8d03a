//! Provider registry for PPID/Platform ID lookup and optional entry signatures.
use vstd::prelude::*;
use vstd::string::StrSliceExecFns;
use vstd::utf8::encode_utf8;
use crate::encoding::{
    base64_standard_decode, base64_standard_decoded, base64_standard_encode, base64_standard_encoded,
};
use crate::text::{ascii_lower_text, is_ascii_text, decimal_text, lowercase_of, push_decimal, to_lowercase, trim, trim_str};

verus! {

/// A single registry entry mapping Platform ID to provider.
#[derive(Debug, Clone)]
pub struct RegistryEntry {
    pub platform_id_hex: String,
    pub provider: String,
    pub region: String,
    pub verification_level: u8,
    pub added_at: Option<String>,
    pub signature: Option<String>,
    pub signer_pubkey: Option<String>,
}

/// Mathematical model of a registry entry.
pub struct EntryModel {
    pub platform_id_hex: Seq<char>,
    pub provider: Seq<char>,
    pub region: Seq<char>,
    pub verification_level: u8,
    pub added_at: Option<Seq<char>>,
    pub signature: Option<Seq<char>>,
    pub signer_pubkey: Option<Seq<char>>,
}

impl View for RegistryEntry {
    type V = EntryModel;

    open spec fn view(&self) -> EntryModel {
        EntryModel {
            platform_id_hex: self.platform_id_hex@,
            provider: self.provider@,
            region: self.region@,
            verification_level: self.verification_level,
            added_at: self.added_at.deep_view(),
            signature: self.signature.deep_view(),
            signer_pubkey: self.signer_pubkey.deep_view(),
        }
    }
}

/// Registry of known providers by Platform ID.
#[derive(Debug, Clone)]
pub struct Registry {
    pub version: String,
    pub description: Option<String>,
    pub entries: Vec<RegistryEntry>,
}

/// Mathematical model of a registry.
pub struct RegistryModel {
    pub version: Seq<char>,
    pub description: Option<Seq<char>>,
    pub entries: Seq<EntryModel>,
}

impl View for Registry {
    type V = RegistryModel;

    open spec fn view(&self) -> RegistryModel {
        RegistryModel {
            version: self.version@,
            description: self.description.deep_view(),
            entries: self.entries@.map_values(|e: RegistryEntry| e@),
        }
    }
}

/// Result of a registry lookup.
#[derive(Debug, Clone)]
pub struct ProviderMatch {
    pub found: bool,
    pub provider: Option<String>,
    pub region: Option<String>,
    pub verification_level: Option<u8>,
    pub signature_valid: Option<bool>,
}

/// Mathematical model of a lookup result.
pub struct ProviderMatchModel {
    pub found: bool,
    pub provider: Option<Seq<char>>,
    pub region: Option<Seq<char>>,
    pub verification_level: Option<u8>,
    pub signature_valid: Option<bool>,
}

impl View for ProviderMatch {
    type V = ProviderMatchModel;

    open spec fn view(&self) -> ProviderMatchModel {
        ProviderMatchModel {
            found: self.found,
            provider: self.provider.deep_view(),
            region: self.region.deep_view(),
            verification_level: self.verification_level,
            signature_valid: self.signature_valid,
        }
    }
}

/// The lookup result that reports no provider.
pub open spec fn no_match() -> ProviderMatchModel {
    ProviderMatchModel {
        found: false,
        provider: None,
        region: None,
        verification_level: None,
        signature_valid: None,
    }
}

impl ProviderMatch {
    /// A lookup result that reports no provider.
    pub fn not_found() -> (m: ProviderMatch)
        ensures
            m@ == no_match(),
    {
        ProviderMatch {
            found: false,
            provider: None,
            region: None,
            verification_level: None,
            signature_valid: None,
        }
    }
}

/// The text that an entry's signature covers:
/// `platform_id|provider|region|verification_level`, with the Platform ID
/// trimmed and lowercased.
pub open spec fn signed_message_text(e: EntryModel) -> Seq<char> {
    lowercase_of(trim(e.platform_id_hex)) + "|"@ + e.provider + "|"@ + e.region + "|"@
        + decimal_text(e.verification_level)
}

/// The UTF-8 bytes that an entry's signature covers.
pub open spec fn signed_message(e: EntryModel) -> Seq<u8> {
    encode_utf8(signed_message_text(e))
}

/// Whether `signature` is a valid Ed25519 signature of `message` under
/// `public_key`, as `ring` decides it.
pub uninterp spec fn ed25519_verifies(public_key: Seq<u8>, message: Seq<u8>, signature: Seq<u8>) -> bool;

/// Calls `ring::signature::UnparsedPublicKey::verify` with the `ED25519`
/// algorithm. Claimed: the answer is a function of the key, message and
/// signature bytes alone, named `ed25519_verifies`; nothing about Ed25519 itself
/// is stated.
#[verifier::external_body]
fn ed25519_verify(public_key: &[u8], message: &[u8], signature: &[u8]) -> (ok: bool)
    ensures
        ok == ed25519_verifies(public_key@, message@, signature@),
{
    ring::signature::UnparsedPublicKey::new(&ring::signature::ED25519, public_key).verify(
        message,
        signature,
    ).is_ok()
}

/// Whether decoded signature bytes `sig` and key bytes `pk` verify entry `e`:
/// a 64-byte signature and a 32-byte key that `ring` accepts for the entry's message.
pub open spec fn decoded_signature_valid(e: EntryModel, sig: Seq<u8>, pk: Seq<u8>) -> bool {
    &&& sig.len() == 64
    &&& pk.len() == 32
    &&& ed25519_verifies(pk, signed_message(e), sig)
}

/// Whether entry `e` passes the signature check: true when it has no
/// signature; otherwise a signer key must be present, both must be standard
/// Base64, and the signature must verify.
pub open spec fn entry_signature_valid(e: EntryModel) -> bool {
    match (e.signature, e.signer_pubkey) {
        (None, _) => true,
        (Some(_), None) => false,
        (Some(sig_b64), Some(pubkey_b64)) => match (
            base64_standard_decoded(encode_utf8(sig_b64)),
            base64_standard_decoded(encode_utf8(pubkey_b64)),
        ) {
            (Some(sig), Some(pk)) => decoded_signature_valid(e, sig, pk),
            _ => false,
        },
    }
}

/// Canonical message used for ed25519 verification of a registry entry.
pub fn entry_signed_message(entry: &RegistryEntry) -> (m: Vec<u8>)
    ensures
        m@ == signed_message(entry@),
{
    let id = trim_str(entry.platform_id_hex.as_str());
    let mut s = to_lowercase(id.as_str());
    s.append("|");
    s.append(entry.provider.as_str());
    s.append("|");
    s.append(entry.region.as_str());
    s.append("|");
    push_decimal(&mut s, entry.verification_level);
    proof {
        reveal_strlit("|");
    }
    assert(s@ =~= signed_message_text(entry@));
    s.as_str().as_bytes_vec()
}

/// Checks decoded signature and key bytes against an entry: the signature must
/// be 64 bytes, the key 32 bytes, and `ring` must accept the signature of the
/// entry's canonical message.
pub fn verify_decoded_signature(entry: &RegistryEntry, sig_bytes: &[u8], pubkey_bytes: &[u8]) -> (ok: bool)
    ensures
        ok == decoded_signature_valid(entry@, sig_bytes@, pubkey_bytes@),
{
    if sig_bytes.len() != 64 || pubkey_bytes.len() != 32 {
        return false;
    }
    let message = entry_signed_message(entry);
    ed25519_verify(pubkey_bytes, message.as_slice(), sig_bytes)
}

/// Verify an entry's optional ed25519 signature. Returns true if no signature, or signature is valid.
pub fn verify_entry_signature(entry: &RegistryEntry) -> (ok: bool)
    ensures
        ok == entry_signature_valid(entry@),
{
    let (sig_b64, pubkey_b64) = match (&entry.signature, &entry.signer_pubkey) {
        (None, _) => return true,
        (Some(_), None) => return false,
        (Some(s), Some(p)) => (s, p),
    };
    let sig_bytes = match base64_standard_decode(sig_b64.as_str().as_bytes()) {
        Ok(b) => b,
        Err(_) => return false,
    };
    let pubkey_bytes = match base64_standard_decode(pubkey_b64.as_str().as_bytes()) {
        Ok(b) => b,
        Err(_) => return false,
    };
    verify_decoded_signature(entry, sig_bytes.as_slice(), pubkey_bytes.as_slice())
}

/// What signing `message` with the Ed25519 key pair that the PKCS#8 document
/// `pkcs8` holds gives: the signature and the public key, or `None` when `ring`
/// rejects the document.
pub uninterp spec fn ed25519_signed(pkcs8: Seq<u8>, message: Seq<u8>) -> Option<(Seq<u8>, Seq<u8>)>;

/// Calls `ring::signature::Ed25519KeyPair::from_pkcs8`, then `sign` and
/// `public_key` of the pair. Claimed: the outcome is a function of the document
/// and message bytes alone (Ed25519 signing is deterministic), named
/// `ed25519_signed`; the signature is 64 bytes, the public key 32 bytes, and
/// `ring`'s Ed25519 verification accepts the signature of the message under that
/// key (`from_pkcs8` checks that the key pair is consistent). Nothing about
/// Ed25519 or PKCS#8 beyond that is stated.
#[verifier::external_body]
fn ed25519_sign(pkcs8: &[u8], message: &[u8]) -> (r: Option<(Vec<u8>, Vec<u8>)>)
    ensures
        r is None <==> ed25519_signed(pkcs8@, message@) is None,
        r matches Some((s, p)) ==> ed25519_signed(pkcs8@, message@) == Some((s@, p@)),
        r matches Some((s, p)) ==> s@.len() == 64 && p@.len() == 32 && ed25519_verifies(
            p@,
            message@,
            s@,
        ),
{
    match ring::signature::Ed25519KeyPair::from_pkcs8(pkcs8) {
        Ok(pair) => Some(
            (
                pair.sign(message).as_ref().to_vec(),
                ring::signature::KeyPair::public_key(&pair).as_ref().to_vec(),
            ),
        ),
        Err(_) => None,
    }
}

/// Errors when signing registry entries.
#[derive(Debug)]
pub enum SignError {
    /// The private key text is not standard Base64.
    InvalidBase64Key,
    /// The decoded private key is not a PKCS#8 Ed25519 key that `ring` accepts.
    InvalidPkcs8Key,
}

impl SignError {
    /// The message that describes this error.
    pub open spec fn message(&self) -> Seq<char> {
        match self {
            SignError::InvalidBase64Key => "invalid base64 private key"@,
            SignError::InvalidPkcs8Key => "invalid PKCS#8 private key"@,
        }
    }

    /// The message that describes this error.
    pub fn to_string(&self) -> (s: String)
        ensures
            s@ == self.message(),
    {
        match self {
            SignError::InvalidBase64Key => String::from_str("invalid base64 private key"),
            SignError::InvalidPkcs8Key => String::from_str("invalid PKCS#8 private key"),
        }
    }
}

/// The standard-Base64 texts of a PKCS#8 private key document and of its
/// public key, as the signing tool prints them.
pub fn encode_key_pair(pkcs8: &[u8], public_key: &[u8]) -> (r: (String, String))
    ensures
        r.0@ == base64_standard_encoded(pkcs8@),
        r.1@ == base64_standard_encoded(public_key@),
{
    (base64_standard_encode(pkcs8), base64_standard_encode(public_key))
}

/// Decodes a standard-Base64 private key.
pub fn decode_private_key(privkey_b64: &str) -> (r: Result<Vec<u8>, SignError>)
    ensures
        match base64_standard_decoded(encode_utf8(privkey_b64@)) {
            None => r matches Err(SignError::InvalidBase64Key),
            Some(k) => r matches Ok(v) && v@ == k,
        },
{
    match base64_standard_decode(privkey_b64.as_bytes()) {
        Ok(k) => Ok(k),
        Err(_) => Err(SignError::InvalidBase64Key),
    }
}

/// Entry `e` carrying signature text `sig_b64` and signer key text `pk_b64`.
pub open spec fn with_signature(e: EntryModel, sig_b64: Seq<char>, pk_b64: Seq<char>) -> EntryModel {
    EntryModel { signature: Some(sig_b64), signer_pubkey: Some(pk_b64), ..e }
}

/// Signs an entry's canonical message with the key pair of PKCS#8 document
/// `pkcs8`; returns the signature and the public key, each in standard Base64.
pub fn sign_entry_with_key(entry: &RegistryEntry, pkcs8: &[u8]) -> (r: Result<(String, String), SignError>)
    ensures
        match ed25519_signed(pkcs8@, signed_message(entry@)) {
            None => r matches Err(SignError::InvalidPkcs8Key),
            Some((sig, pk)) => r matches Ok((s, p)) && s@ == base64_standard_encoded(sig) && p@
                == base64_standard_encoded(pk),
        },
        r matches Ok((s, p)) ==> entry_signature_valid(with_signature(entry@, s@, p@)),
{
    let message = entry_signed_message(entry);
    match ed25519_sign(pkcs8, message.as_slice()) {
        Some((sig, pk)) => Ok((base64_standard_encode(sig.as_slice()), base64_standard_encode(pk.as_slice()))),
        None => Err(SignError::InvalidPkcs8Key),
    }
}

/// Signs an entry's canonical message with a standard-Base64 PKCS#8 Ed25519
/// private key; returns the signature and the public key, each in standard
/// Base64, as the registry stores them in `signature` and `signer_pubkey`.
pub fn sign_entry(entry: &RegistryEntry, privkey_b64: &str) -> (r: Result<(String, String), SignError>)
    ensures
        match base64_standard_decoded(encode_utf8(privkey_b64@)) {
            None => r matches Err(SignError::InvalidBase64Key),
            Some(k) => match ed25519_signed(k, signed_message(entry@)) {
                None => r matches Err(SignError::InvalidPkcs8Key),
                Some((sig, pk)) => r matches Ok((s, p)) && s@ == base64_standard_encoded(sig) && p@
                    == base64_standard_encoded(pk),
            },
        },
        r matches Ok((s, p)) ==> entry_signature_valid(with_signature(entry@, s@, p@)),
{
    let key = decode_private_key(privkey_b64)?;
    sign_entry_with_key(entry, key.as_slice())
}

/// The key by which Platform IDs are compared: trimmed, then lowercased.
pub open spec fn id_key(platform_id_hex: Seq<char>) -> Seq<char> {
    lowercase_of(trim(platform_id_hex))
}

/// Entry `i` is the first entry whose key is `key`.
pub open spec fn is_first_match(entries: Seq<EntryModel>, key: Seq<char>, i: int) -> bool {
    &&& 0 <= i < entries.len()
    &&& id_key(entries[i].platform_id_hex) == key
    &&& forall|j: int| 0 <= j < i ==> id_key(#[trigger] entries[j].platform_id_hex) != key
}

/// The lookup result that reports entry `e`.
pub open spec fn match_of(e: EntryModel) -> ProviderMatchModel {
    ProviderMatchModel {
        found: true,
        provider: Some(e.provider),
        region: Some(e.region),
        verification_level: Some(e.verification_level),
        signature_valid: if e.signature is Some || e.signer_pubkey is Some {
            Some(entry_signature_valid(e))
        } else {
            None
        },
    }
}

/// What looking up `platform_id_hex` in `registry` gives: the first entry whose
/// trimmed, lowercased Platform ID equals the trimmed, lowercased query.
pub open spec fn lookup_spec(registry: RegistryModel, platform_id_hex: Seq<char>) -> ProviderMatchModel {
    lookup_key_spec(registry, id_key(platform_id_hex))
}

/// What looking up an already trimmed and lowercased Platform ID `key` in
/// `registry` gives: the first entry whose trimmed, lowercased Platform ID is `key`.
pub open spec fn lookup_key_spec(registry: RegistryModel, key: Seq<char>) -> ProviderMatchModel {
    if exists|i: int| is_first_match(registry.entries, key, i) {
        match_of(registry.entries[choose|i: int| is_first_match(registry.entries, key, i)])
    } else {
        no_match()
    }
}

/// Looks up a Platform ID that is already trimmed and lowercased: the first
/// entry whose trimmed, lowercased Platform ID equals it is reported.
pub fn lookup_normalized(registry: &Registry, normalized: &String) -> (m: ProviderMatch)
    ensures
        m@ == lookup_key_spec(registry@, normalized@),
{
    let ghost key = normalized@;
    let ghost entries = registry@.entries;
    for i in 0..registry.entries.len()
        invariant
            key == normalized@,
            entries == registry@.entries,
            entries.len() == registry.entries@.len(),
            forall|j: int| 0 <= j < i ==> id_key(#[trigger] entries[j].platform_id_hex) != key,
    {
        let entry = &registry.entries[i];
        assert(entry@ == entries[i as int]);
        let entry_trimmed = trim_str(entry.platform_id_hex.as_str());
        let entry_key = to_lowercase(entry_trimmed.as_str());
        if entry_key == *normalized {
            assert(is_first_match(entries, key, i as int));
            assert forall|k: int| is_first_match(entries, key, k) implies k == i by {
                if k > i {
                    assert(id_key(entries[i as int].platform_id_hex) != key);
                }
            }
            let signature_valid = if entry.signature.is_some() || entry.signer_pubkey.is_some() {
                Some(verify_entry_signature(entry))
            } else {
                None
            };
            let m = ProviderMatch {
                found: true,
                provider: Some(entry.provider.clone()),
                region: Some(entry.region.clone()),
                verification_level: Some(entry.verification_level),
                signature_valid,
            };
            let ghost c = choose|k: int| is_first_match(entries, key, k);
            assert(c == i);
            assert(m@ == match_of(entry@));
            return m;
        }
    }
    ProviderMatch::not_found()
}

/// Look up a Platform ID (hex) in the registry.
/// Returns provider info if found; signature_valid set when entry has signature/signer_pubkey.
pub fn lookup_provider(registry: &Registry, platform_id_hex: &str) -> (m: ProviderMatch)
    ensures
        m@ == lookup_spec(registry@, platform_id_hex@),
        is_ascii_text(trim(platform_id_hex@)) ==> m@ == lookup_key_spec(
            registry@,
            ascii_lower_text(trim(platform_id_hex@)),
        ),
{
    let trimmed = trim_str(platform_id_hex);
    let normalized = to_lowercase(trimmed.as_str());
    lookup_normalized(registry, &normalized)
}

/// Some entry with key `key` at or before index `i` makes a first match exist.
proof fn lemma_first_match_exists(entries: Seq<EntryModel>, key: Seq<char>, i: int)
    requires
        0 <= i < entries.len(),
        id_key(entries[i].platform_id_hex) == key,
    ensures
        exists|k: int| is_first_match(entries, key, k),
    decreases i,
{
    if exists|j: int| 0 <= j < i && id_key(#[trigger] entries[j].platform_id_hex) == key {
        let j = choose|j: int| 0 <= j < i && id_key(#[trigger] entries[j].platform_id_hex) == key;
        lemma_first_match_exists(entries, key, j);
    } else {
        assert(is_first_match(entries, key, i));
    }
}

/// A Platform ID is found exactly when some entry carries it (both compared
/// trimmed and lowercased); the reported entry is the first such entry.
pub proof fn found_iff_listed(registry: RegistryModel, platform_id_hex: Seq<char>)
    ensures
        lookup_spec(registry, platform_id_hex).found <==> exists|i: int|
            0 <= i < registry.entries.len() && id_key(#[trigger] registry.entries[i].platform_id_hex)
                == id_key(platform_id_hex),
        !lookup_spec(registry, platform_id_hex).found ==> lookup_spec(registry, platform_id_hex)
            == no_match(),
        lookup_spec(registry, platform_id_hex).found ==> exists|i: int|
            is_first_match(registry.entries, id_key(platform_id_hex), i) && lookup_spec(
                registry,
                platform_id_hex,
            ) == match_of(#[trigger] registry.entries[i]),
{
    let key = id_key(platform_id_hex);
    if exists|i: int|
        0 <= i < registry.entries.len() && id_key(#[trigger] registry.entries[i].platform_id_hex)
            == key {
        let i = choose|i: int|
            0 <= i < registry.entries.len() && id_key(#[trigger] registry.entries[i].platform_id_hex)
                == key;
        lemma_first_match_exists(registry.entries, key, i);
    }
}

/// Queries that agree once trimmed and lowercased get the same answer.
pub proof fn lookup_ignores_query_form(registry: RegistryModel, a: Seq<char>, b: Seq<char>)
    requires
        id_key(a) == id_key(b),
    ensures
        lookup_spec(registry, a) == lookup_spec(registry, b),
{
}

/// An entry without a signature passes the signature check; one with a
/// signature but no signer key fails it.
pub proof fn unsigned_entries_pass(e: EntryModel)
    ensures
        e.signature is None ==> entry_signature_valid(e),
        e.signature is Some && e.signer_pubkey is None ==> !entry_signature_valid(e),
{
}

/// A decoded signature or key of the wrong length never verifies.
pub proof fn wrong_lengths_fail(e: EntryModel, sig: Seq<u8>, pk: Seq<u8>)
    requires
        sig.len() != 64 || pk.len() != 32,
    ensures
        !decoded_signature_valid(e, sig, pk),
{
}

} // verus!
