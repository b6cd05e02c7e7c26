use pilgrim::invariants::{InvariantClass, InvariantRegistry, InvariantSpec};
use pilgrim::ledger::DriftLedger;
use pilgrim::sentinel::{Sentinel, SentinelMode, SentinelOutcome};

#[test]
fn drift_ledger_chains_events_deterministically() {
    let mut ledger = DriftLedger::new();

    let e1 = ledger.record("inv-001", "schema", "state", "stage-A", "hash-A");

    let e1_hash = e1.after_hash.clone();

    let e2 = ledger.record("inv-002", "value", "state", "stage-B", "hash-B");

    assert_eq!(e2.prev_event_hash.as_deref(), Some(e1_hash.as_str()));
}

#[test]
fn invariant_registry_registers_and_fetches() {
    let mut registry = InvariantRegistry::new();

    registry.register(InvariantSpec::new("contract.state.transition", InvariantClass::Transition));

    let inv = registry.get("contract.state.transition").expect("invariant missing");

    assert_eq!(inv.class, InvariantClass::Transition);
}

#[test]
fn duplicate_registration_is_a_config_error() {
    let mut registry = InvariantRegistry::new();
    assert!(registry.register(InvariantSpec::new("dup", InvariantClass::Schema)).is_ok());
    let err = registry.register(InvariantSpec::new("dup", InvariantClass::Schema)).unwrap_err();
    assert_eq!(err.id, "dup");
    assert!(registry.get("dup").is_some());
}

#[test]
fn registry_lists_by_domain() {
    let mut registry = InvariantRegistry::new();
    registry.register(InvariantSpec {
        id: "a".to_string(),
        class: InvariantClass::Value,
        domain: "engine".to_string(),
    });
    registry.register(InvariantSpec {
        id: "b".to_string(),
        class: InvariantClass::Schema,
        domain: "ledger".to_string(),
    });
    registry.register(InvariantSpec {
        id: "c".to_string(),
        class: InvariantClass::Temporal,
        domain: "engine".to_string(),
    });
    let engine_invariants = registry.by_domain("engine");
    assert_eq!(engine_invariants.len(), 2);
    assert!(engine_invariants.iter().all(|s| s.domain == "engine"));
    assert!(registry.by_domain("nowhere").is_empty());
}

#[test]
fn matching_fingerprints_proceed_without_writes() {
    let mut ledger = DriftLedger::new();
    let spec = InvariantSpec::new("state.stable", InvariantClass::Value);
    let state = b"{\"value\":1}";

    let token = Sentinel::before(state, "state.stable");
    let outcome = Sentinel::after(&token, state, "demo", &spec, SentinelMode::Enforce, &mut ledger);

    match outcome {
        SentinelOutcome::Proceed(t) => assert_eq!(t.hash, token.hash),
        other => panic!("expected the operation to proceed, got {:?}", other),
    }
    assert!(ledger.events.is_empty());
}

#[test]
fn enforce_mode_halts_and_records_exactly_one_event() {
    let mut ledger = DriftLedger::new();
    let spec = InvariantSpec::new("state.stable", InvariantClass::Value);

    let token = Sentinel::before(b"{\"value\":1}", "state.stable");
    let outcome = Sentinel::after(
        &token,
        b"{\"value\":999}",
        "demo",
        &spec,
        SentinelMode::Enforce,
        &mut ledger,
    );

    match outcome {
        SentinelOutcome::Halted(ev) => {
            assert_eq!(ev.domain, "demo");
            assert_eq!(ev.invariant_id, "state.stable");
            assert_eq!(ev.class, "value");
            assert_eq!(ev.before_hash, token.hash);
            assert_ne!(ev.after_hash, ev.before_hash);
        }
        other => panic!("expected an irreversible halt, got {:?}", other),
    }
    assert_eq!(ledger.events.len(), 1);
}

#[test]
fn detect_mode_returns_the_violation() {
    let mut ledger = DriftLedger::new();
    let spec = InvariantSpec::new("state.stable", InvariantClass::Transition);

    let token = Sentinel::before(b"before-bytes", "state.stable");
    let outcome = Sentinel::after(
        &token,
        b"after-bytes",
        "console",
        &spec,
        SentinelMode::Detect,
        &mut ledger,
    );

    match outcome {
        SentinelOutcome::Violation(ev) => {
            assert_eq!(ev.class, "transition");
            assert_eq!(ledger.events.len(), 1);
            assert_eq!(ledger.events[0].after_hash, ev.after_hash);
        }
        other => panic!("expected a typed violation, got {:?}", other),
    }
}

#[test]
fn content_fingerprint_detects_value_mutation() {
    // Two states of the same shape but different values must fingerprint
    // differently: the fingerprint covers content, not shape.
    let token = Sentinel::before(b"{\"value\":1}", "demo");
    let other = Sentinel::before(b"{\"value\":2}", "demo");
    assert_ne!(token.hash, other.hash);
}
