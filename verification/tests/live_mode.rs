use exec_rs::clock::Timestamp;
use exec_rs::digest::{sha256_hex, sign_request};
use exec_rs::live::{
    check_compliance_gate, decrypt_broker_key, encrypt_broker_key, AuditLog, BrokerCredentials,
    ComplianceError, ComplianceRecord, ConfirmationGate, KmsError,
};
use exec_rs::market::Exchange;
use sha2::{Digest, Sha256};

#[test]
fn kms_encrypt_decrypt_round_trip() {
    let dek_hex = "00".repeat(32);
    let nonce_hex = "00".repeat(12);
    let plaintext = "LIVE_API_KEY_abc123XYZ";

    let ciphertext_hex = encrypt_broker_key(&dek_hex, &nonce_hex, plaintext).unwrap();
    let recovered = decrypt_broker_key(&dek_hex, &nonce_hex, &ciphertext_hex).unwrap();
    assert_eq!(recovered, plaintext);
}

#[test]
fn kms_ciphertext_is_sealed_lower_hex() {
    let ciphertext_hex = encrypt_broker_key(&"11".repeat(32), &"22".repeat(12), "key").unwrap();
    assert_ne!(ciphertext_hex, hex::encode("key"));
    assert_eq!(ciphertext_hex.len(), 2 * (3 + 16));
    assert!(ciphertext_hex.chars().all(|c| c.is_ascii_hexdigit() && !c.is_ascii_uppercase()));
}

#[test]
fn kms_decrypt_wrong_tag_fails_closed() {
    let dek_hex = "00".repeat(32);
    let nonce_hex = "00".repeat(12);
    let plaintext = "secret-api-key";
    let ciphertext_hex = encrypt_broker_key(&dek_hex, &nonce_hex, plaintext).unwrap();

    let mut bytes = hex::decode(&ciphertext_hex).unwrap();
    bytes[0] ^= 0xFF;
    let bad_hex = hex::encode(bytes);

    assert!(matches!(
        decrypt_broker_key(&dek_hex, &nonce_hex, &bad_hex),
        Err(KmsError::DecryptionFailed)
    ));
}

#[test]
fn kms_rejects_bad_key_material() {
    let nonce_hex = "00".repeat(12);
    assert!(matches!(
        decrypt_broker_key(&"00".repeat(31), &nonce_hex, "00"),
        Err(KmsError::InvalidDekLength)
    ));
    assert!(matches!(
        encrypt_broker_key(&"00".repeat(32), &"00".repeat(11), "x"),
        Err(KmsError::InvalidNonceLength)
    ));
    match decrypt_broker_key("zz", &nonce_hex, "00") {
        Err(KmsError::HexDecode(msg)) => assert_eq!(msg, hex::decode("zz").unwrap_err().to_string()),
        other => panic!("unexpected {other:?}"),
    }
    assert!(matches!(encrypt_broker_key("0", &nonce_hex, "x"), Err(KmsError::HexDecode(_))));
}

#[test]
fn broker_credentials_enforce_trade_only_scope() {
    let trade_only = BrokerCredentials {
        api_key: "key".to_string(),
        api_secret: "secret".to_string(),
        scope: vec!["trade".to_string()],
    };
    assert!(trade_only.verify_scope().is_ok());

    let with_withdraw = BrokerCredentials {
        scope: vec!["trade".to_string(), "withdraw".to_string()],
        ..trade_only.clone()
    };
    assert!(matches!(with_withdraw.verify_scope(), Err(KmsError::ScopeViolation(_))));

    let no_trade = BrokerCredentials { scope: vec!["read".to_string()], ..trade_only };
    assert!(matches!(no_trade.verify_scope(), Err(KmsError::ScopeViolation(_))));
}

#[test]
fn broker_scope_violations_say_why() {
    let creds = BrokerCredentials { api_key: String::new(), api_secret: String::new(), scope: vec![] };
    match creds.verify_scope() {
        Err(KmsError::ScopeViolation(m)) => assert_eq!(m, "trade scope missing"),
        other => panic!("unexpected {other:?}"),
    }
    let creds = BrokerCredentials { scope: vec!["withdraw".to_string(), "trade".to_string()], ..creds };
    match creds.verify_scope() {
        Err(KmsError::ScopeViolation(m)) => assert_eq!(m, "withdraw scope must not be granted on live keys"),
        other => panic!("unexpected {other:?}"),
    }
}

#[test]
fn compliance_gate_requires_jurisdiction_tos_and_risk_ack() {
    let t = Timestamp::from_parts(1_700_000_000, 0).unwrap();
    let valid = ComplianceRecord {
        user_id: "u1".to_string(),
        jurisdiction: Some("US".to_string()),
        tos_accepted_at: Some(t),
        risk_ack_at: Some(t),
    };
    assert!(check_compliance_gate(&valid).is_ok());

    let no_jurisdiction = ComplianceRecord { jurisdiction: None, ..valid.clone() };
    assert!(matches!(check_compliance_gate(&no_jurisdiction), Err(ComplianceError::NoJurisdiction)));

    let no_tos = ComplianceRecord { tos_accepted_at: None, ..valid.clone() };
    assert!(matches!(check_compliance_gate(&no_tos), Err(ComplianceError::TosNotAccepted)));

    let no_risk_ack = ComplianceRecord { risk_ack_at: None, ..valid };
    assert!(matches!(check_compliance_gate(&no_risk_ack), Err(ComplianceError::RiskAckMissing)));
}

#[test]
fn confirmation_gate_binds_to_spec_hash_account_and_exchange() {
    let spec_hash = "a".repeat(64);
    let account_id = "sub-account-50usd";

    let token = ConfirmationGate::expected_token(&spec_hash, account_id, Exchange::Binance);
    assert!(ConfirmationGate::verify(&token, &spec_hash, account_id, Exchange::Binance));
    assert!(!ConfirmationGate::verify("wrong", &spec_hash, account_id, Exchange::Binance));
    assert!(!ConfirmationGate::verify(&token, &"b".repeat(64), account_id, Exchange::Binance));
    assert!(!ConfirmationGate::verify(&token, &spec_hash, account_id, Exchange::Bybit));
}

#[test]
fn confirmation_token_is_sha256_of_the_bound_parameters() {
    let token = ConfirmationGate::expected_token("h", "acct", Exchange::Bybit);
    assert_eq!(token, hex::encode(Sha256::digest(b"h:acct:bybit")));
    assert_eq!(sha256_hex("abc"), "ba7816bf8f01cfea414140de5dae2223b00361a396177a9cb410ff61f20015ad");
}

#[test]
fn audit_log_is_named_after_the_run() {
    let dir = std::path::Path::new("/var/log/exec");
    let log = AuditLog::new("/var/log/exec", "run-0001");
    assert_eq!(log.name(), "run-0001-audit.jsonl");
    assert_eq!(std::path::Path::new(log.path()), dir.join("run-0001-audit.jsonl").as_path());
    assert_eq!(log.path(), "/var/log/exec/run-0001-audit.jsonl");
}

#[test]
fn requests_are_signed_with_hmac_sha256() {
    assert_eq!(
        sign_request("Jefe", "what do ya want for nothing?"),
        "5bdcc146bf60754e6a042426089575c75a003f089d2739839dec58b964ec3843"
    );
    assert_ne!(sign_request("Jefe", "what do ya want for nothing!"), sign_request("Jefe", "what do ya want for nothing?"));
}
