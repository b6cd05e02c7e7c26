use pilgrim::identity::{sha256_hex, Identity, IdentityError};
use pilgrim::mandate::{Mandate, MandateError, MandateRule};

#[test]
fn identity_fingerprint_is_stable() {
    let id1 = Identity::new("ernesto_lopez", b"demo-pubkey-bytes").unwrap();
    let id2 = Identity::new("ernesto_lopez", b"demo-pubkey-bytes").unwrap();
    assert_eq!(id1, id2);
}

#[test]
fn proof_verifies() {
    let identity = Identity::new("ernesto_lopez", b"demo-pubkey-bytes").unwrap();
    let msg_hash = sha256_hex(b"hello-world");
    let proof = identity.prove(&msg_hash);
    identity.verify(&proof).unwrap();
}

#[test]
fn proof_fails_on_tamper() {
    let identity = Identity::new("ernesto_lopez", b"demo-pubkey-bytes").unwrap();
    let msg_hash = sha256_hex(b"hello-world");
    let mut proof = identity.prove(&msg_hash);

    proof.proof_hash = "deadbeef".to_string();
    assert!(identity.verify(&proof).is_err());
}

#[test]
fn sha256_matches_known_vectors() {
    assert_eq!(
        sha256_hex(b""),
        "e3b0c44298fc1c149afbf4c8996fb92427ae41e4649b934ca495991b7852b855"
    );
    assert_eq!(
        sha256_hex(b"abc"),
        "ba7816bf8f01cfea414140de5dae2223b00361a396177a9cb410ff61f20015ad"
    );
}

#[test]
fn subject_ids_are_trimmed() {
    let id = Identity::new("  ernesto_lopez \n", b"demo-pubkey-bytes").unwrap();
    assert_eq!(id.subject_id, "ernesto_lopez");
    assert_eq!(id, Identity::new("ernesto_lopez", b"demo-pubkey-bytes").unwrap());
}

#[test]
fn blank_subject_and_empty_key_are_rejected() {
    assert_eq!(Identity::new("   ", b"key"), Err(IdentityError::InvalidSubjectId));
    assert_eq!(Identity::new("who", b""), Err(IdentityError::InvalidPublicKey));
}

fn demo_identity() -> Identity {
    Identity::new("ernesto_lopez", b"demo-pubkey-bytes").unwrap()
}

#[test]
fn allows_authorized_identity() {
    let identity = demo_identity();

    let mandate = Mandate::new(vec![MandateRule {
        subject_id: "ernesto_lopez".to_string(),
        cartridge_id: "cognitive_drift_v1".to_string(),
    }]);

    assert!(mandate.allows(&identity, "cognitive_drift_v1"));
    assert!(mandate.enforce(&identity, "cognitive_drift_v1").is_ok());
}

#[test]
fn blocks_unauthorized_identity() {
    let identity = demo_identity();

    let mandate = Mandate::new(vec![]);

    let err = mandate.enforce(&identity, "cognitive_drift_v1").unwrap_err();

    assert!(matches!(err, MandateError::Denied { .. }));
}

#[test]
fn different_cartridge_is_denied() {
    let identity = demo_identity();

    let mandate = Mandate::new(vec![MandateRule {
        subject_id: "ernesto_lopez".to_string(),
        cartridge_id: "threshold_lock_v1".to_string(),
    }]);

    assert!(!mandate.allows(&identity, "cognitive_drift_v1"));
}

#[test]
fn denial_message_names_the_pair() {
    let identity = demo_identity();
    let mandate = Mandate::new(vec![]);
    let err = mandate.enforce(&identity, "cognitive_drift_v1").unwrap_err();
    assert_eq!(
        err.message(),
        "MANDATE VIOLATION: identity 'ernesto_lopez' is not allowed to execute cartridge 'cognitive_drift_v1'"
    );
}
