use pilgrim::constraints::{Constraints, ConstraintsError};
use pilgrim::engine::{
    Engine, EngineError, PilgrimEngine, StepKind, VerificationFailed,
};
use pilgrim::envelope::{Constraints as IntentConstraints, Datum, Intent, PrivacyTier};

fn bounds(max_steps: u64, max_runtime_ms: u64) -> Constraints {
    Constraints {
        max_steps: Some(max_steps),
        max_runtime_ms: Some(max_runtime_ms),
        require_logs: false,
        privacy: PrivacyTier::Public,
    }
}

#[test]
fn engine_advances_with_distinct_events() {
    let mut engine = PilgrimEngine::new();
    let a = engine.advance("event-one");
    let b = engine.advance("event-two");
    assert_ne!(a, b);
}

#[test]
fn engine_is_deterministic_per_event_order() {
    let mut engine = PilgrimEngine::new();
    let a1 = engine.advance("alpha");
    let a2 = engine.advance("beta");

    let b1 = engine.advance("alpha");
    let b2 = engine.advance("beta");

    assert_ne!(a1, b1); // sequence advances
    assert_ne!(a2, b2);
}

#[test]
fn sequencers_with_equal_histories_agree() {
    let mut one = PilgrimEngine::new();
    let mut two = PilgrimEngine::new();
    assert_eq!(one.advance("alpha"), two.advance("alpha"));
    assert_eq!(one.advance("beta"), two.advance("beta"));
    assert_eq!(one.ticks(), 2);
    assert_eq!(two.step("gamma"), {
        let mut three = PilgrimEngine::new();
        three.advance("alpha");
        three.advance("beta");
        three.advance("gamma")
    });
}

#[test]
fn identical_runs_yield_identical_receipts() {
    let engine = Engine::new(vec![StepKind::Reverse, StepKind::AppendByte(7), StepKind::PassThrough]);
    let c = bounds(10, 100);
    let r1 = engine.run("run-1", "determinism-test", b"hello", &c, 5).unwrap();
    let r2 = engine.run("run-1", "determinism-test", b"hello", &c, 5).unwrap();
    assert_eq!(r1, r2);
    assert_eq!(r1.run_id, "run-1");
    assert_eq!(r1.intent_checksum, "determinism-test");
    assert_eq!(r1.steps.len(), 3);
    assert_eq!(r1.steps[0].step_name, "reverse");
    assert_eq!(r1.steps[1].step_name, "append_byte");
    assert_eq!(r1.final_trace_hash, r2.final_trace_hash);
}

#[test]
fn step_limit_stops_the_third_step() {
    let engine = Engine::new(vec![
        StepKind::PassThrough,
        StepKind::PassThrough,
        StepKind::PassThrough,
    ]);
    let c = bounds(2, 100);
    let err = engine.run("run-2", "digest", b"abc", &c, 0).unwrap_err();
    assert_eq!(
        err,
        EngineError::Constraint(ConstraintsError::StepLimitExceeded {
            max_steps: 2,
            attempted_step_index: 2,
        })
    );
}

#[test]
fn runtime_limit_stops_before_any_step() {
    let engine = Engine::new(vec![StepKind::PassThrough]);
    let c = bounds(10, 10);
    let err = engine.run("run-3", "digest", b"abc", &c, 11).unwrap_err();
    assert_eq!(
        err,
        EngineError::Constraint(ConstraintsError::RuntimeLimitExceeded {
            max_runtime_ms: 10,
            elapsed_ms: 11,
        })
    );
}

#[test]
fn failing_step_aborts_without_receipt() {
    let engine = Engine::new(vec![StepKind::RequireNonEmpty]);
    let c = bounds(10, 100);
    let err = engine.run("run-4", "digest", b"", &c, 0).unwrap_err();
    assert_eq!(
        err,
        EngineError::StepFailed {
            step_name: "require_non_empty".to_string(),
            reason: "empty payload".to_string(),
        }
    );
}

#[test]
fn constraint_checks_are_exact() {
    let c = bounds(2, 10);
    assert!(c.assert_step_allowed(1).is_ok());
    assert_eq!(
        c.assert_step_allowed(2),
        Err(ConstraintsError::StepLimitExceeded { max_steps: 2, attempted_step_index: 2 })
    );
    assert!(c.assert_runtime_allowed(10).is_ok());
    assert_eq!(
        c.assert_runtime_allowed(11),
        Err(ConstraintsError::RuntimeLimitExceeded { max_runtime_ms: 10, elapsed_ms: 11 })
    );
    let unbounded = Constraints::default();
    assert!(unbounded.assert_step_allowed(u64::MAX - 1).is_ok());
    assert!(unbounded.assert_runtime_allowed(u64::MAX).is_ok());
}

fn flip_first_char(s: &str) -> String {
    let replacement = if s.starts_with('0') { "1" } else { "0" };
    format!("{}{}", replacement, &s[1..])
}

fn demo_intent() -> Intent {
    Intent {
        intent_id: "intent-run".to_string(),
        created_unix_ms: 1700000000000,
        operator: None,
        statement: "Execute the registered steps.".to_string(),
        inputs: vec![Datum { key: "payload".to_string(), value: "hello".to_string() }],
        constraints: IntentConstraints::default(),
        nonce: 3,
    }
}

#[test]
fn receipt_round_trip_verifies() {
    let engine = Engine::new(vec![StepKind::Reverse, StepKind::AppendByte(1)]);
    let intent = demo_intent();
    let receipt = engine.execute(&intent, 0).unwrap();
    engine.verify_receipt(&receipt, &intent).unwrap();
}

#[test]
fn tampered_receipt_output_is_detected() {
    let engine = Engine::new(vec![StepKind::Reverse, StepKind::AppendByte(1)]);
    let intent = demo_intent();
    let mut receipt = engine.execute(&intent, 0).unwrap();
    receipt.steps[1].output_hash = flip_first_char(&receipt.steps[1].output_hash);
    assert_eq!(
        engine.verify_receipt(&receipt, &intent),
        Err(VerificationFailed::OutputMismatch)
    );
}

#[test]
fn tampered_receipt_digest_is_detected() {
    let engine = Engine::new(vec![StepKind::PassThrough]);
    let intent = demo_intent();
    let mut receipt = engine.execute(&intent, 0).unwrap();
    receipt.intent_checksum = "not-the-digest".to_string();
    assert_eq!(
        engine.verify_receipt(&receipt, &intent),
        Err(VerificationFailed::IntentDigestMismatch)
    );
}

#[test]
fn tampered_trace_hash_is_detected() {
    let engine = Engine::new(vec![StepKind::PassThrough]);
    let intent = demo_intent();
    let mut receipt = engine.execute(&intent, 0).unwrap();
    receipt.final_trace_hash = flip_first_char(&receipt.final_trace_hash);
    assert_eq!(
        engine.verify_receipt(&receipt, &intent),
        Err(VerificationFailed::TraceHashMismatch)
    );
}
