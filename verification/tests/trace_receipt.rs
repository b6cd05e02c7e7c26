use pilgrim::receipt::{Receipt, StepReceipt};
use pilgrim::trace::Trace;

#[test]
fn trace_counts_and_hashes_checkpoints() {
    let mut trace = Trace::new("run-7", "prove the trace");
    assert_eq!(trace.steps_len(), 0);
    trace.push_step("load", b"hello");
    trace.push_step("transform", b"olleh");
    assert_eq!(trace.steps_len(), 2);

    let h1 = trace.finalize_hash();
    let h2 = trace.finalize_hash();
    assert_eq!(h1, h2);
    assert_eq!(h1.len(), 64);
}

#[test]
fn trace_hash_covers_every_field() {
    let mut a = Trace::new("run-7", "statement");
    a.push_step("load", b"hello");

    let mut b = Trace::new("run-8", "statement");
    b.push_step("load", b"hello");
    assert_ne!(a.finalize_hash(), b.finalize_hash());

    let mut c = Trace::new("run-7", "statement");
    c.push_step("load", b"other");
    assert_ne!(a.finalize_hash(), c.finalize_hash());

    let mut d = Trace::new("run-7", "statement");
    d.push_step("store", b"hello");
    assert_ne!(a.finalize_hash(), d.finalize_hash());
}

#[test]
fn receipt_new_copies_its_fields() {
    let steps = vec![StepReceipt {
        step_index: 0,
        step_name: "reverse".to_string(),
        input_hash: "aa".to_string(),
        output_hash: "bb".to_string(),
    }];
    let receipt = Receipt::new("run-1", "digest", "hash", steps);
    assert_eq!(receipt.run_id, "run-1");
    assert_eq!(receipt.intent_checksum, "digest");
    assert_eq!(receipt.final_trace_hash, "hash");
    assert_eq!(receipt.steps.len(), 1);
    assert_eq!(receipt.steps[0].step_name, "reverse");
}
