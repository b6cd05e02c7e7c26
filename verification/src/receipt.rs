//! The final, independently verifiable summary of one deterministic run.

use vstd::prelude::*;

verus! {

/// What one executed step contributed to the trace.
#[derive(Debug, Clone, PartialEq, Eq)]
pub struct StepReceipt {
    pub step_index: u64,
    pub step_name: String,
    pub input_hash: String,
    pub output_hash: String,
}

/// A receipt is fully reproducible: every field is a pure function of the
/// run's explicit arguments, so re-running the same arguments recreates it
/// byte for byte.
#[derive(Debug, Clone, PartialEq, Eq)]
pub struct Receipt {
    pub run_id: String,
    /// Checksum of the intent the run was executed for.
    pub intent_checksum: String,
    /// The hash-chain value after the last step.
    pub final_trace_hash: String,
    /// One entry per executed step, in order.
    pub steps: Vec<StepReceipt>,
}

impl Receipt {
    pub fn new(run_id: &str, intent_checksum: &str, final_trace_hash: &str, steps: Vec<
        StepReceipt,
    >) -> (r: Self)
        ensures
            r.run_id@ == run_id@,
            r.intent_checksum@ == intent_checksum@,
            r.final_trace_hash@ == final_trace_hash@,
            r.steps@ == steps@,
    {
        Receipt {
            run_id: run_id.to_owned(),
            intent_checksum: intent_checksum.to_owned(),
            final_trace_hash: final_trace_hash.to_owned(),
            steps,
        }
    }
}

} // verus!
