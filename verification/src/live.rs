//! Live-mode safeguards: broker keys sealed with AES-256-GCM, the key scope, the compliance
//! gate, the hold-to-confirm token and the audit log's location.
use crate::clock::Timestamp;
use crate::digest::{
    hex_decode, hex_decoded, hex_encode, hex_encoded, hex_error_text, lemma_hex_round_trip,
    sha256_digest, sha256_hex,
};
use crate::market::{spec_exchange_name, Exchange};
use aes_gcm::aead::{Aead, KeyInit};
use aes_gcm::{Aes256Gcm, Key, Nonce};
use vstd::prelude::*;
use vstd::string::*;
use vstd::utf8::{decode_utf8, encode_utf8, encode_utf8_decode_utf8, encode_utf8_valid_utf8, valid_utf8};

verus! {

/// What AES-256-GCM decryption (no associated data) of `ciphertext` under `key` and `nonce`
/// gives: the plaintext, or `None` when the tag does not authenticate.
pub uninterp spec fn aes256gcm_open(key: Seq<u8>, nonce: Seq<u8>, ciphertext: Seq<u8>) -> Option<
    Seq<u8>,
>;

/// What AES-256-GCM encryption (no associated data) of `plaintext` under `key` and `nonce`
/// gives: the ciphertext with its tag, or `None` when the plaintext is too long.
pub uninterp spec fn aes256gcm_seal(key: Seq<u8>, nonce: Seq<u8>, plaintext: Seq<u8>) -> Option<
    Seq<u8>,
>;

/// `Aes256Gcm::decrypt` with a 32-byte key and a 12-byte nonce.
#[verifier::external_body]
fn aes256gcm_decrypt(key: &[u8], nonce: &[u8], ciphertext: &[u8]) -> (r: Option<Vec<u8>>)
    requires
        key@.len() == 32,
        nonce@.len() == 12,
    ensures
        match r {
            Some(p) => aes256gcm_open(key@, nonce@, ciphertext@) == Some(p@),
            None => aes256gcm_open(key@, nonce@, ciphertext@) is None,
        },
{
    let cipher = Aes256Gcm::new(Key::<Aes256Gcm>::from_slice(key));
    cipher.decrypt(Nonce::from_slice(nonce), ciphertext).ok()
}

/// `Aes256Gcm::encrypt` with a 32-byte key and a 12-byte nonce. What it seals, decryption
/// under the same key and nonce opens to the plaintext again.
#[verifier::external_body]
fn aes256gcm_encrypt(key: &[u8], nonce: &[u8], plaintext: &[u8]) -> (r: Option<Vec<u8>>)
    requires
        key@.len() == 32,
        nonce@.len() == 12,
    ensures
        match r {
            Some(c) => {
                &&& aes256gcm_seal(key@, nonce@, plaintext@) == Some(c@)
                &&& aes256gcm_open(key@, nonce@, c@) == Some(plaintext@)
            },
            None => aes256gcm_seal(key@, nonce@, plaintext@) is None,
        },
{
    let cipher = Aes256Gcm::new(Key::<Aes256Gcm>::from_slice(key));
    cipher.encrypt(Nonce::from_slice(nonce), plaintext).ok()
}

/// `String::from_utf8`: the text when the bytes are well-formed UTF-8.
#[verifier::external_body]
fn string_from_utf8(bytes: Vec<u8>) -> (r: Option<String>)
    ensures
        r is Some <==> valid_utf8(bytes@),
        r matches Some(s) ==> s@ == decode_utf8(bytes@),
{
    String::from_utf8(bytes).ok()
}

/// Why a broker key could not be opened, sealed or used.
#[derive(Debug, Clone)]
pub enum KmsError {
    InvalidDekLength,
    InvalidNonceLength,
    HexDecode(String),
    DecryptionFailed,
    InvalidUtf8,
    ScopeViolation(String),
}

/// A `KmsError` with its texts taken by their views.
pub enum KmsFailure {
    InvalidDekLength,
    InvalidNonceLength,
    HexDecode(Seq<char>),
    DecryptionFailed,
    InvalidUtf8,
    ScopeViolation(Seq<char>),
}

impl View for KmsError {
    type V = KmsFailure;

    open spec fn view(&self) -> KmsFailure {
        match self {
            KmsError::InvalidDekLength => KmsFailure::InvalidDekLength,
            KmsError::InvalidNonceLength => KmsFailure::InvalidNonceLength,
            KmsError::HexDecode(m) => KmsFailure::HexDecode(m@),
            KmsError::DecryptionFailed => KmsFailure::DecryptionFailed,
            KmsError::InvalidUtf8 => KmsFailure::InvalidUtf8,
            KmsError::ScopeViolation(m) => KmsFailure::ScopeViolation(m@),
        }
    }
}

/// The data key and nonce that hex texts stand for, checked in the order the keys are
/// opened: each text decodes, then the key is 32 bytes and the nonce 12.
pub open spec fn spec_key_material(dek_hex: Seq<u8>, nonce_hex: Seq<u8>) -> Result<
    (Seq<u8>, Seq<u8>),
    KmsFailure,
> {
    match hex_decoded(dek_hex) {
        None => Err(KmsFailure::HexDecode(hex_error_text(dek_hex))),
        Some(dek) => match hex_decoded(nonce_hex) {
            None => Err(KmsFailure::HexDecode(hex_error_text(nonce_hex))),
            Some(nonce) => if dek.len() != 32 {
                Err(KmsFailure::InvalidDekLength)
            } else if nonce.len() != 12 {
                Err(KmsFailure::InvalidNonceLength)
            } else {
                Ok((dek, nonce))
            },
        },
    }
}

/// The broker key that `decrypt_broker_key` opens from the hex texts (given by their UTF-8
/// bytes): all three texts are decoded before the lengths are checked.
pub open spec fn spec_decrypt(dek_hex: Seq<u8>, nonce_hex: Seq<u8>, ciphertext_hex: Seq<u8>) -> Result<
    Seq<char>,
    KmsFailure,
> {
    match hex_decoded(dek_hex) {
        None => Err(KmsFailure::HexDecode(hex_error_text(dek_hex))),
        Some(dek) => match hex_decoded(nonce_hex) {
            None => Err(KmsFailure::HexDecode(hex_error_text(nonce_hex))),
            Some(nonce) => match hex_decoded(ciphertext_hex) {
                None => Err(KmsFailure::HexDecode(hex_error_text(ciphertext_hex))),
                Some(ct) => if dek.len() != 32 {
                    Err(KmsFailure::InvalidDekLength)
                } else if nonce.len() != 12 {
                    Err(KmsFailure::InvalidNonceLength)
                } else {
                    match aes256gcm_open(dek, nonce, ct) {
                        None => Err(KmsFailure::DecryptionFailed),
                        Some(pt) => if valid_utf8(pt) {
                            Ok(decode_utf8(pt))
                        } else {
                            Err(KmsFailure::InvalidUtf8)
                        },
                    }
                },
            },
        },
    }
}

/// The hex ciphertext that `encrypt_broker_key` seals `plaintext` into.
pub open spec fn spec_encrypt(dek_hex: Seq<u8>, nonce_hex: Seq<u8>, plaintext: Seq<char>) -> Result<
    Seq<char>,
    KmsFailure,
> {
    match spec_key_material(dek_hex, nonce_hex) {
        Err(e) => Err(e),
        Ok((dek, nonce)) => match aes256gcm_seal(dek, nonce, encode_utf8(plaintext)) {
            None => Err(KmsFailure::DecryptionFailed),
            Some(ct) => Ok(hex_encoded(ct)),
        },
    }
}

fn decode_hex_field(s: &str) -> (r: Result<Vec<u8>, KmsError>)
    ensures
        match r {
            Ok(v) => hex_decoded(s.spec_bytes()) == Some(v@),
            Err(e) => hex_decoded(s.spec_bytes()) is None && e@ == KmsFailure::HexDecode(
                hex_error_text(s.spec_bytes()),
            ),
        },
{
    match hex_decode(s) {
        Ok(v) => Ok(v),
        Err(m) => Err(KmsError::HexDecode(m)),
    }
}

/// Opens a broker key: the data key, nonce and ciphertext come as hex; the key must be 32
/// bytes and the nonce 12; a tag that does not authenticate fails closed.
pub fn decrypt_broker_key(dek_hex: &str, nonce_hex: &str, ciphertext_hex: &str) -> (r: Result<
    String,
    KmsError,
>)
    ensures
        match r {
            Ok(s) => spec_decrypt(dek_hex.spec_bytes(), nonce_hex.spec_bytes(), ciphertext_hex.spec_bytes())
                == Ok::<Seq<char>, KmsFailure>(s@),
            Err(e) => spec_decrypt(dek_hex.spec_bytes(), nonce_hex.spec_bytes(), ciphertext_hex.spec_bytes())
                == Err::<Seq<char>, KmsFailure>(e@),
        },
{
    let dek = match decode_hex_field(dek_hex) {
        Ok(v) => v,
        Err(e) => {
            return Err(e);
        },
    };
    let nonce = match decode_hex_field(nonce_hex) {
        Ok(v) => v,
        Err(e) => {
            return Err(e);
        },
    };
    let ciphertext = match decode_hex_field(ciphertext_hex) {
        Ok(v) => v,
        Err(e) => {
            return Err(e);
        },
    };
    if dek.len() != 32 {
        return Err(KmsError::InvalidDekLength);
    }
    if nonce.len() != 12 {
        return Err(KmsError::InvalidNonceLength);
    }
    let plaintext = match aes256gcm_decrypt(dek.as_slice(), nonce.as_slice(), ciphertext.as_slice()) {
        Some(p) => p,
        None => {
            return Err(KmsError::DecryptionFailed);
        },
    };
    match string_from_utf8(plaintext) {
        Some(s) => Ok(s),
        None => Err(KmsError::InvalidUtf8),
    }
}

/// Seals a broker key under the hex data key and nonce and returns the hex ciphertext.
/// Whatever it seals, `decrypt_broker_key` with the same key and nonce opens to the same
/// text.
pub fn encrypt_broker_key(dek_hex: &str, nonce_hex: &str, plaintext: &str) -> (r: Result<
    String,
    KmsError,
>)
    ensures
        match r {
            Ok(c) => spec_encrypt(dek_hex.spec_bytes(), nonce_hex.spec_bytes(), plaintext@)
                == Ok::<Seq<char>, KmsFailure>(c@),
            Err(e) => spec_encrypt(dek_hex.spec_bytes(), nonce_hex.spec_bytes(), plaintext@)
                == Err::<Seq<char>, KmsFailure>(e@),
        },
        r matches Ok(c) ==> spec_decrypt(
            dek_hex.spec_bytes(),
            nonce_hex.spec_bytes(),
            encode_utf8(c@),
        ) == Ok::<Seq<char>, KmsFailure>(plaintext@),
{
    let dek = match decode_hex_field(dek_hex) {
        Ok(v) => v,
        Err(e) => {
            return Err(e);
        },
    };
    let nonce = match decode_hex_field(nonce_hex) {
        Ok(v) => v,
        Err(e) => {
            return Err(e);
        },
    };
    if dek.len() != 32 {
        return Err(KmsError::InvalidDekLength);
    }
    if nonce.len() != 12 {
        return Err(KmsError::InvalidNonceLength);
    }
    let ciphertext = match aes256gcm_encrypt(dek.as_slice(), nonce.as_slice(), plaintext.as_bytes()) {
        Some(c) => c,
        None => {
            return Err(KmsError::DecryptionFailed);
        },
    };
    let out = hex_encode(ciphertext.as_slice());
    proof {
        lemma_hex_round_trip(ciphertext@);
        encode_utf8_valid_utf8(plaintext@);
        encode_utf8_decode_utf8(plaintext@);
    }
    Ok(out)
}

/// Broker credentials, opened at start-up and never written out.
#[derive(Debug, Clone)]
pub struct BrokerCredentials {
    pub api_key: String,
    pub api_secret: String,
    pub scope: Vec<String>,
}

/// The scope check: `trade` must be granted and `withdraw` must not.
pub open spec fn spec_scope_check(scope: Seq<Seq<char>>) -> Result<(), KmsFailure> {
    if !scope.contains("trade"@) {
        Err(KmsFailure::ScopeViolation("trade scope missing"@))
    } else if scope.contains("withdraw"@) {
        Err(KmsFailure::ScopeViolation("withdraw scope must not be granted on live keys"@))
    } else {
        Ok(())
    }
}

fn has_scope(scope: &Vec<String>, name: &str) -> (r: bool)
    ensures
        r <==> crate::validation::texts(scope@).contains(name@),
{
    let mut i: usize = 0;
    while i < scope.len()
        invariant
            0 <= i <= scope@.len(),
            forall|j: int| 0 <= j < i ==> (#[trigger] scope@[j])@ != name@,
        decreases scope@.len() - i,
    {
        if crate::text::str_eq(scope[i].as_str(), name) {
            assert(crate::validation::texts(scope@)[i as int] == name@);
            return true;
        }
        i = i + 1;
    }
    proof {
        let t = crate::validation::texts(scope@);
        if t.contains(name@) {
            let j = choose|j: int| 0 <= j < t.len() && t[j] == name@;
            assert(scope@[j]@ == name@);
        }
    }
    false
}

impl BrokerCredentials {
    /// Live keys must carry the `trade` scope and must not carry `withdraw`.
    pub fn verify_scope(&self) -> (r: Result<(), KmsError>)
        ensures
            match r {
                Ok(()) => spec_scope_check(crate::validation::texts(self.scope@)) is Ok,
                Err(e) => spec_scope_check(crate::validation::texts(self.scope@)) == Err::<
                    (),
                    KmsFailure,
                >(e@),
            },
    {
        if !has_scope(&self.scope, "trade") {
            return Err(KmsError::ScopeViolation(String::from_str("trade scope missing")));
        }
        if has_scope(&self.scope, "withdraw") {
            return Err(
                KmsError::ScopeViolation(
                    String::from_str("withdraw scope must not be granted on live keys"),
                ),
            );
        }
        Ok(())
    }
}

/// Why a user may not go live yet.
#[derive(Debug, Clone, Copy, PartialEq, Eq, Structural)]
pub enum ComplianceError {
    NoJurisdiction,
    TosNotAccepted,
    RiskAckMissing,
}

/// What the user has recorded before going live.
#[derive(Debug, Clone)]
pub struct ComplianceRecord {
    pub user_id: String,
    pub jurisdiction: Option<String>,
    pub tos_accepted_at: Option<Timestamp>,
    pub risk_ack_at: Option<Timestamp>,
}

/// Going live needs a jurisdiction, accepted terms and a risk acknowledgement, checked in
/// that order.
pub open spec fn spec_compliance_gate(record: ComplianceRecord) -> Result<(), ComplianceError> {
    if record.jurisdiction is None {
        Err(ComplianceError::NoJurisdiction)
    } else if record.tos_accepted_at is None {
        Err(ComplianceError::TosNotAccepted)
    } else if record.risk_ack_at is None {
        Err(ComplianceError::RiskAckMissing)
    } else {
        Ok(())
    }
}

pub fn check_compliance_gate(record: &ComplianceRecord) -> (r: Result<(), ComplianceError>)
    ensures
        r == spec_compliance_gate(*record),
{
    if record.jurisdiction.is_none() {
        return Err(ComplianceError::NoJurisdiction);
    }
    if record.tos_accepted_at.is_none() {
        return Err(ComplianceError::TosNotAccepted);
    }
    if record.risk_ack_at.is_none() {
        return Err(ComplianceError::RiskAckMissing);
    }
    Ok(())
}

/// The hold-to-confirm token: lower-case hex SHA-256 of `"{spec_hash}:{account_id}:{exchange}"`.
pub open spec fn spec_confirmation_token(
    spec_hash: Seq<char>,
    account_id: Seq<char>,
    exchange: Exchange,
) -> Seq<char> {
    hex_encoded(
        sha256_digest(
            encode_utf8(spec_hash + ":"@ + account_id + ":"@ + spec_exchange_name(exchange)),
        ),
    )
}

/// The hold-to-confirm gate, bound to the spec hash, the account and the venue.
pub struct ConfirmationGate;

impl ConfirmationGate {
    pub fn expected_token(spec_hash: &str, account_id: &str, exchange: Exchange) -> (r: String)
        ensures
            r@ == spec_confirmation_token(spec_hash@, account_id@, exchange),
    {
        let mut input = String::from_str(spec_hash);
        input.append(":");
        input.append(account_id);
        input.append(":");
        input.append(exchange.as_str());
        sha256_hex(input.as_str())
    }

    /// Whether `provided` is the token for these parameters.
    pub fn verify(provided: &str, spec_hash: &str, account_id: &str, exchange: Exchange) -> (r:
        bool)
        ensures
            r == (provided@ == spec_confirmation_token(spec_hash@, account_id@, exchange)),
    {
        let expected = Self::expected_token(spec_hash, account_id, exchange);
        crate::text::str_eq(provided, expected.as_str())
    }
}

/// The text of `Path::new(dir).join(name)`.
pub uninterp spec fn joined_path(dir: Seq<char>, name: Seq<char>) -> Seq<char>;

/// `Path::new(dir).join(name)`, taken back as text. Both parts are UTF-8, so the lossy
/// conversion changes nothing; how the separator is placed is `Path::join`'s own rule.
#[verifier::external_body]
fn path_join(dir: &str, name: &str) -> (r: String)
    ensures
        r@ == joined_path(dir@, name@),
{
    std::path::Path::new(dir).join(name).to_string_lossy().into_owned()
}

/// Where a run's append-only audit log is written: `{run_id}-audit.jsonl` in a directory.
pub struct AuditLog {
    path: String,
    file_name: String,
}

impl AuditLog {
    pub fn new(dir: &str, run_id: &str) -> (r: AuditLog)
        ensures
            r.file_name()@ == run_id@ + "-audit.jsonl"@,
            r.location()@ == joined_path(dir@, run_id@ + "-audit.jsonl"@),
    {
        let mut file_name = String::from_str(run_id);
        file_name.append("-audit.jsonl");
        let path = path_join(dir, file_name.as_str());
        AuditLog { path, file_name }
    }

    /// The log's file name within its directory.
    pub closed spec fn file_name(&self) -> String {
        self.file_name
    }

    /// Where the log is written: the directory it was made for, joined with its file name.
    pub closed spec fn location(&self) -> String {
        self.path
    }

    /// The log's file name within its directory.
    pub fn name(&self) -> (r: &str)
        ensures
            r@ == self.file_name()@,
    {
        self.file_name.as_str()
    }

    /// The full path of the log file.
    pub fn path(&self) -> (r: &str)
        ensures
            r@ == self.location()@,
    {
        self.path.as_str()
    }
}

} // verus!
