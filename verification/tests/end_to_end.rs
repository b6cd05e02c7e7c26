use pilgrim::engine::{Engine, StepKind};
use pilgrim::envelope::{Constraints, Datum, Intent, RequestEnvelope};
use pilgrim::store::AppendOnlyStore;

// The full data flow: an intent is sealed and verified, the engine consumes
// it and produces a receipt, the receipt verifies independently, and the
// committed record keeps the ledger chain intact.
#[test]
fn intent_to_ledger_flow() {
    let intent = Intent {
        intent_id: "intent-flow".to_string(),
        created_unix_ms: 1700000000000,
        operator: Some("night shift".to_string()),
        statement: "Transform the payload and commit the receipt.".to_string(),
        inputs: vec![Datum { key: "payload".to_string(), value: "hello".to_string() }],
        constraints: Constraints::default(),
        nonce: 11,
    };

    let envelope = RequestEnvelope::new(intent.clone());
    envelope.verify().unwrap();

    let engine = Engine::new(vec![
        StepKind::RequireNonEmpty,
        StepKind::Reverse,
        StepKind::AppendByte(42),
    ]);
    let receipt = engine.execute(&intent, 3).unwrap();
    engine.verify_receipt(&receipt, &intent).unwrap();
    assert_eq!(receipt.run_id, "intent-flow");
    assert_eq!(receipt.intent_checksum, envelope.checksum.hex);

    let mut ledger = AppendOnlyStore::open();
    let record = ledger.append_json("receipt", &receipt.final_trace_hash);
    assert!(ledger.verify());
    assert_eq!(record.payload_json, receipt.final_trace_hash);

    // The same flow replayed gives the same committed bytes.
    let replayed = engine.execute(&intent, 3).unwrap();
    assert_eq!(replayed, receipt);
    let mut ledger2 = AppendOnlyStore::open();
    let record2 = ledger2.append_json("receipt", &replayed.final_trace_hash);
    assert_eq!(record2.record_hash, record.record_hash);
}
