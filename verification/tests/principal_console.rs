use pilgrim::aegis::{AegisReceipt, Decision, PolicyEngine, ReceiptStore};
use pilgrim::cartridges::{
    CognitiveDriftCartridge, MemorySeal, NeuroDiscordanceCartridge, PilgrimBridge,
    ThresholdAmbiguityCartridge,
};
use pilgrim::charter::{system_invariants, InvariantCategory};
use pilgrim::console::contract::{ContractState as KeyedState, PianoContract};
use pilgrim::console::contracts::{ContractStage, ContractState};
use pilgrim::console::manifest::ConsoleManifest;
use pilgrim::contract::{Contract, ContractVerdict, StepAdvance, TransitionContract};
use pilgrim::principal::{IdentityError, IdentityVerifier, PrincipalRole};

#[test]
fn advance_requires_state_change() {
    let c = StepAdvance;

    assert_eq!(c.evaluate_with(1, 2), ContractVerdict::Pass);

    assert_eq!(
        c.evaluate_with(2, 2),
        ContractVerdict::Fail("engine advance produced no state change".into())
    );
}

#[test]
fn contract_constructors_fill_the_verdict() {
    let a = Contract::allow("user", "cart");
    assert_eq!(a.verdict, ContractVerdict::Allow);
    assert_eq!(a.reason, "Contract satisfied");
    let d = Contract::deny("user", "cart", "not on the list");
    assert_eq!(d.verdict, ContractVerdict::Deny);
    assert_eq!(d.reason, "not on the list");
    let r = Contract::review("user", "cart", "needs a second look");
    assert_eq!(r.verdict, ContractVerdict::Review);
    assert_eq!(r.subject_id, "user");
    assert_eq!(r.cartridge_id, "cart");
}

#[test]
fn principal_blob_parses_id_and_role() {
    let verifier = IdentityVerifier::new();
    let p = verifier.verify(b"id:acme-user-01;role:Operator").unwrap();
    assert_eq!(p.id, "acme-user-01");
    assert_eq!(p.role, PrincipalRole::Operator);
}

#[test]
fn principal_role_defaults_to_guest() {
    let verifier = IdentityVerifier::new();
    let p = verifier.verify(b"id:cartridge-x").unwrap();
    assert_eq!(p.id, "cartridge-x");
    assert_eq!(p.role, PrincipalRole::Guest);
}

#[test]
fn principal_later_parts_win() {
    let verifier = IdentityVerifier::new();
    let p = verifier.verify(b" id:first ; id:second ; role:Root ; role:Cartridge ").unwrap();
    assert_eq!(p.id, "second");
    assert_eq!(p.role, PrincipalRole::Cartridge);
}

#[test]
fn principal_rejects_bad_blobs() {
    let verifier = IdentityVerifier::new();
    assert_eq!(verifier.verify(b""), Err(IdentityError::EmptyBlob));
    assert_eq!(verifier.verify(&[0xff, 0xfe]), Err(IdentityError::InvalidUtf8));
    assert_eq!(verifier.verify(b"role:Operator"), Err(IdentityError::Malformed));
    assert_eq!(verifier.verify(b"id:x;role:Admiral"), Err(IdentityError::Malformed));
}

#[test]
fn staged_contract_walks_to_export() {
    let mut state = ContractState::new();
    assert_eq!(state.stage(), ContractStage::Init);
    assert!(!state.is_complete());
    state.advance(ContractStage::Validate);
    state.advance(ContractStage::Export);
    assert!(state.is_complete());
}

#[test]
fn keyed_contract_follows_the_canonical_path() {
    let mut c = PianoContract::new();
    assert_eq!(c.state(), KeyedState::Init);
    c.apply_frame(0);
    assert_eq!(c.state(), KeyedState::Validate);
    c.apply_frame(9); // unknown key: state unchanged
    assert_eq!(c.state(), KeyedState::Validate);
    c.apply_frame(1);
    c.apply_frame(2);
    c.apply_frame(3);
    c.apply_frame(4);
    c.apply_frame(5);
    assert_eq!(c.state(), KeyedState::Complete);
}

#[test]
fn manifest_v1_is_fixed() {
    let m = ConsoleManifest::v1();
    assert_eq!(m.console_version, "pilgrim-console-v1.0.1");
    assert!(m.deterministic_core && m.ledger_enabled && m.supports_variants);
}

#[test]
fn charter_lists_ten_declarations() {
    let charter = system_invariants();
    assert_eq!(charter.len(), 10);
    assert_eq!(charter[0].id, "TRUTH_001");
    assert_eq!(charter[9].category, InvariantCategory::Safety);
    assert!(charter.iter().all(|inv| !inv.description.is_empty()));
}

#[test]
fn cartridges_carry_stable_ids() {
    assert_eq!(CognitiveDriftCartridge::new().id(), "cognitive_drift_v1");
    assert_eq!(NeuroDiscordanceCartridge::new().id(), "neuro_discordance_v1");
    assert_eq!(ThresholdAmbiguityCartridge::new().id(), "threshold_ambiguity_v1");
    assert_eq!(CognitiveDriftCartridge::new().message(10), "Cognitive drift stabilised");
    let _bridge = PilgrimBridge::new();
}

#[test]
fn memory_seal_reports_its_tick() {
    let mut seal = MemorySeal::new();
    assert_eq!(seal.id(), "memory_seal_v1");
    assert_eq!(seal.seal(42), "Memory sealed at tick 42");
    assert_eq!(MemorySeal::new().seal(0), "Memory sealed at tick 0");
}

#[test]
fn policy_allows_core_scope() {
    match PolicyEngine::decide(7) {
        Decision::Allow(scopes) => assert_eq!(scopes, vec!["core".to_string()]),
        other => panic!("expected an allow decision, got {:?}", other),
    }
    PolicyEngine::sign(&Decision::Deny);
}

#[test]
fn receipt_store_lists_and_ranks_by_subject() {
    let mut store = ReceiptStore::new();
    store.insert(AegisReceipt::new(1, Decision::Deny, 100));
    store.insert(AegisReceipt::new(2, Decision::Review, 50));
    store.insert(AegisReceipt::new(1, Decision::Review, 300));
    store.insert(AegisReceipt::new(1, Decision::Deny, 200));

    assert_eq!(store.list(1).len(), 3);
    assert_eq!(store.list(3).len(), 0);
    assert_eq!(store.latest(1).unwrap().issued_at_ms, 300);
    assert_eq!(store.latest(2).unwrap().issued_at_ms, 50);
    assert!(store.latest(9).is_none());
}

#[test]
fn aegis_receipt_and_forensics_smoke() {
    let subject = uuid::Uuid::new_v4();
    let decision = Decision::Allow(vec!["core".into()]);
    let issued_at = chrono::Utc::now().timestamp_millis().max(0) as u64;

    let receipt = AegisReceipt::new(subject.as_u128(), decision.clone(), issued_at);

    assert_eq!(receipt.subject, subject.as_u128());
    assert_eq!(receipt.decision, decision);
    assert_eq!(receipt.issued_at_ms, issued_at);

    let mut store = ReceiptStore::new();
    store.insert(receipt.clone());
    assert_eq!(store.latest(subject.as_u128()), Some(&receipt));
}
