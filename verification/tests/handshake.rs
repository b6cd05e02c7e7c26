use pilgrim::envelope::{
    Constraints, Datum, HandshakeError, Intent, PrivacyTier, RequestEnvelope, ResponseEnvelope,
    RunStatus,
};

fn demo_intent() -> Intent {
    Intent {
        intent_id: "intent-0001".to_string(),
        created_unix_ms: 1700000000000,
        operator: Some("Amethyst Cymru".to_string()),
        statement: "Prove determinism of envelope checksum.".to_string(),
        inputs: vec![
            Datum { key: "alpha".to_string(), value: "1".to_string() },
            Datum { key: "beta".to_string(), value: "2".to_string() },
        ],
        constraints: Constraints::default(),
        nonce: 7,
    }
}

#[test]
fn request_envelope_roundtrip_verifies() {
    let env = RequestEnvelope::new(demo_intent());
    env.verify().unwrap();
}

#[test]
fn response_envelope_roundtrip_verifies() {
    let resp = ResponseEnvelope::new(
        "intent-0001".to_string(),
        RunStatus::Accepted,
        "Accepted by deterministic core.".to_string(),
    );
    resp.verify().unwrap();
}

#[test]
fn checksum_detects_tamper() {
    let intent = Intent {
        intent_id: "intent-0002".to_string(),
        created_unix_ms: 1700000000000,
        operator: None,
        statement: "Original".to_string(),
        inputs: vec![],
        constraints: Constraints::default(),
        nonce: 1,
    };

    let mut env = RequestEnvelope::new(intent);
    env.verify().unwrap();

    env.intent.statement = "Tampered".to_string();
    assert!(env.verify().is_err());
    assert_eq!(env.verify(), Err(HandshakeError::ChecksumMismatch));
}

#[test]
fn sealing_is_deterministic() {
    let a = RequestEnvelope::new(demo_intent());
    let b = RequestEnvelope::new(demo_intent());
    assert_eq!(a.checksum.hex, b.checksum.hex);
    assert_eq!(a.seal_bytes(), b.seal_bytes());
    assert_eq!(a.seal_bytes(), a.to_canonical_bytes());
}

#[test]
fn protocol_mismatch_is_reported() {
    let mut env = RequestEnvelope::new(demo_intent());
    env.protocol = "some-other-protocol/9".to_string();
    match env.verify() {
        Err(HandshakeError::ProtocolMismatch { expected, got }) => {
            assert_eq!(expected, "amethyst-pilgrim-handshake/1");
            assert_eq!(got, "some-other-protocol/9");
        }
        other => panic!("expected a protocol mismatch, got {:?}", other),
    }
}

#[test]
fn tampered_response_fails_checksum() {
    let mut resp = ResponseEnvelope::new(
        "intent-0009".to_string(),
        RunStatus::Completed,
        "done".to_string(),
    );
    resp.message = "done!".to_string();
    assert_eq!(resp.verify(), Err(HandshakeError::ChecksumMismatch));
}

#[test]
fn constraints_defaults_and_bridge_form() {
    let d = Constraints::default();
    assert_eq!(d.max_steps, 10_000);
    assert_eq!(d.max_runtime_ms, 10_000);
    assert!(d.require_logs);
    assert_eq!(d.privacy, PrivacyTier::Protected);

    let c = Constraints::from_json_string("{\"anything\": true}");
    assert_eq!(c.max_steps, 0);
    assert_eq!(c.max_runtime_ms, 0);
    assert!(!c.require_logs);
    assert_eq!(c.privacy, PrivacyTier::Protected);
}
