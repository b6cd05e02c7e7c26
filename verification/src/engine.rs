//! The deterministic step-execution engine.
//!
//! An engine is a closed, explicitly ordered registry of named steps, each a
//! pure function from bytes to bytes. A run folds a hash chain across the
//! steps, enforcing the caller's bounds, and emits a receipt. The engine
//! never reads a clock, randomness or ambient state: all time-like inputs
//! are explicit arguments, so for fixed arguments two runs produce
//! observationally identical results.

use vstd::prelude::*;

verus! {

use crate::codec::{
    append_bytes, enc_str, enc_u64, genesis, hash_bytes, push_str_field, push_u64, spec_genesis,
    spec_hash_hex, string_eq,
};
use crate::constraints::{runtime_allowed, step_allowed, Constraints, ConstraintsError};
use crate::envelope;
use crate::envelope::{canonical_intent_digest, enc_inputs, intent_input_bytes, Intent,
    spec_protocol, spec_request_checksum};
use crate::receipt::{Receipt, StepReceipt};
use vstd::string::StringSliceAdditionalSpecFns;
use vstd::utf8::encode_utf8;

/// A named, pure byte transformation. The registry is closed: a step is
/// resolved by its kind at configuration time, never by runtime inspection.
#[derive(Debug, Clone, PartialEq, Eq)]
pub enum StepKind {
    /// Pass the payload through unchanged.
    PassThrough,
    /// Reverse the payload bytes.
    Reverse,
    /// Append one fixed byte to the payload.
    AppendByte(u8),
    /// Fail on an empty payload; pass anything else through.
    RequireNonEmpty,
}

/// Whether a step succeeds on the given payload.
pub open spec fn spec_step_ok(k: StepKind, p: Seq<u8>) -> bool {
    match k {
        StepKind::RequireNonEmpty => p.len() > 0,
        _ => true,
    }
}

/// The payload a successful step leaves behind.
pub open spec fn spec_step_out(k: StepKind, p: Seq<u8>) -> Seq<u8> {
    match k {
        StepKind::PassThrough => p,
        StepKind::Reverse => p.reverse(),
        StepKind::AppendByte(b) => p.push(b),
        StepKind::RequireNonEmpty => p,
    }
}

/// The stable name of a step.
pub open spec fn spec_step_name(k: StepKind) -> Seq<char> {
    match k {
        StepKind::PassThrough => "pass_through"@,
        StepKind::Reverse => "reverse"@,
        StepKind::AppendByte(_) => "append_byte"@,
        StepKind::RequireNonEmpty => "require_non_empty"@,
    }
}

/// The reason a step reports when it fails.
pub open spec fn spec_fail_reason(k: StepKind) -> Seq<char> {
    "empty payload"@
}

/// The stable name of a step, as a value.
pub fn step_name(k: &StepKind) -> (s: String)
    ensures
        s@ == spec_step_name(*k),
{
    match k {
        StepKind::PassThrough => "pass_through".to_owned(),
        StepKind::Reverse => "reverse".to_owned(),
        StepKind::AppendByte(_) => "append_byte".to_owned(),
        StepKind::RequireNonEmpty => "require_non_empty".to_owned(),
    }
}

/// Runs one step: succeeds exactly when the step accepts the payload, and
/// then returns exactly the step's transformation of it.
pub fn apply_step(k: &StepKind, payload: &Vec<u8>) -> (r: Result<Vec<u8>, String>)
    ensures
        r is Ok <==> spec_step_ok(*k, payload@),
        r matches Ok(p2) ==> p2@ == spec_step_out(*k, payload@),
        r matches Err(reason) ==> reason@ == spec_fail_reason(*k),
{
    match k {
        StepKind::PassThrough => {
            let mut out: Vec<u8> = Vec::new();
            append_bytes(&mut out, payload.as_slice());
            Ok(out)
        },
        StepKind::Reverse => {
            let mut out: Vec<u8> = Vec::new();
            let n = payload.len();
            let mut i: usize = 0;
            while i < n
                invariant
                    n == payload@.len(),
                    i <= n,
                    out@.len() == i,
                    forall|j: int| 0 <= j < i ==> out@[j] == payload@[n - 1 - j],
                decreases n - i,
            {
                out.push(payload[n - 1 - i]);
                i = i + 1;
            }
            proof {
                assert(out@ =~= payload@.reverse());
            }
            Ok(out)
        },
        StepKind::AppendByte(b) => {
            let mut out: Vec<u8> = Vec::new();
            append_bytes(&mut out, payload.as_slice());
            out.push(*b);
            Ok(out)
        },
        StepKind::RequireNonEmpty => {
            if payload.len() == 0 {
                Err("empty payload".to_owned())
            } else {
                let mut out: Vec<u8> = Vec::new();
                append_bytes(&mut out, payload.as_slice());
                Ok(out)
            }
        },
    }
}

/// One link of a run's trace: what went into a step and what came out,
/// chained to the previous link.
#[derive(Debug, Clone, PartialEq, Eq)]
pub struct TraceEvent {
    pub step_index: u64,
    pub step_name: String,
    pub input_hash: String,
    pub output_hash: String,
    pub prev_trace_hash: String,
}

/// A run aborts with a constraint violation or with a failing step.
#[derive(Debug, Clone, PartialEq, Eq)]
pub enum EngineError {
    Constraint(ConstraintsError),
    StepFailed { step_name: String, reason: String },
}

/// Canonical bytes of one trace event, fields in declared order.
pub open spec fn enc_event(
    step_index: u64,
    name: Seq<char>,
    input_hash: Seq<char>,
    output_hash: Seq<char>,
    prev: Seq<char>,
) -> Seq<u8> {
    enc_u64(step_index) + enc_str(name) + enc_str(input_hash) + enc_str(output_hash) + enc_str(prev)
}

/// Folds one trace event into the running trace hash.
pub open spec fn spec_fold(
    prev: Seq<char>,
    step_index: u64,
    name: Seq<char>,
    input_hash: Seq<char>,
    output_hash: Seq<char>,
) -> Seq<char> {
    spec_hash_hex(
        encode_utf8(prev) + enc_event(step_index, name, input_hash, output_hash, prev),
    )
}

/// Folds one trace event into the chain, exactly as `spec_fold` says:
/// SHA-256 over the previous hash's bytes followed by the event's canonical
/// bytes.
pub fn fold_event(ev: &TraceEvent) -> (h: String)
    ensures
        h@ == spec_fold(
            ev.prev_trace_hash@,
            ev.step_index,
            ev.step_name@,
            ev.input_hash@,
            ev.output_hash@,
        ),
{
    let mut ev_bytes: Vec<u8> = Vec::new();
    append_bytes(&mut ev_bytes, ev.prev_trace_hash.as_str().as_bytes());
    push_u64(&mut ev_bytes, ev.step_index);
    push_str_field(&mut ev_bytes, ev.step_name.as_str());
    push_str_field(&mut ev_bytes, ev.input_hash.as_str());
    push_str_field(&mut ev_bytes, ev.output_hash.as_str());
    push_str_field(&mut ev_bytes, ev.prev_trace_hash.as_str());
    proof {
        assert(ev_bytes@ =~= encode_utf8(ev.prev_trace_hash@) + enc_event(
            ev.step_index,
            ev.step_name@,
            ev.input_hash@,
            ev.output_hash@,
            ev.prev_trace_hash@,
        ));
    }
    hash_bytes(ev_bytes.as_slice())
}

/// The payload before step `i`, assuming every earlier step succeeded.
pub open spec fn payload_at(steps: Seq<StepKind>, input: Seq<u8>, i: int) -> Seq<u8>
    decreases i,
{
    if i <= 0 {
        input
    } else {
        spec_step_out(steps[i - 1], payload_at(steps, input, i - 1))
    }
}

/// The trace hash after the first `i` steps, seeded with `GENESIS`.
pub open spec fn chain_at(steps: Seq<StepKind>, input: Seq<u8>, i: int) -> Seq<char>
    decreases i,
{
    if i <= 0 {
        spec_genesis()
    } else {
        spec_fold(
            chain_at(steps, input, i - 1),
            (i - 1) as u64,
            spec_step_name(steps[i - 1]),
            spec_hash_hex(payload_at(steps, input, i - 1)),
            spec_hash_hex(payload_at(steps, input, i)),
        )
    }
}

/// Step `i` is allowed by the constraints and succeeds on its payload.
pub open spec fn step_run_ok(steps: Seq<StepKind>, input: Seq<u8>, c: Constraints, i: int) -> bool {
    step_allowed(c, i as u64) && spec_step_ok(steps[i], payload_at(steps, input, i))
}

/// Steps `0 .. i` were all allowed by the constraints and all succeeded.
pub open spec fn steps_ok_upto(steps: Seq<StepKind>, input: Seq<u8>, c: Constraints, i: int) -> bool {
    forall|j: int| 0 <= j < i ==> #[trigger] step_run_ok(steps, input, c, j)
}

/// The run reaches step `i` and stops there: the constraints refuse the
/// step, or the step fails.
pub open spec fn run_stops_at(steps: Seq<StepKind>, input: Seq<u8>, c: Constraints, i: int) -> bool {
    &&& 0 <= i < steps.len()
    &&& steps_ok_upto(steps, input, c, i)
    &&& !step_run_ok(steps, input, c, i)
}

/// At most one step stops the run.
pub proof fn lemma_stop_unique(
    steps: Seq<StepKind>,
    input: Seq<u8>,
    c: Constraints,
    i: int,
    j: int,
)
    requires
        run_stops_at(steps, input, c, i),
        run_stops_at(steps, input, c, j),
    ensures
        i == j,
{
    if i < j {
        assert(step_run_ok(steps, input, c, i));
    }
    if j < i {
        assert(step_run_ok(steps, input, c, j));
    }
}

/// If no step stops the run, every step was allowed and succeeded.
pub proof fn lemma_no_stop_all_ok(steps: Seq<StepKind>, input: Seq<u8>, c: Constraints, i: int)
    requires
        0 <= i <= steps.len(),
        forall|k: int| !(#[trigger] run_stops_at(steps, input, c, k)),
    ensures
        steps_ok_upto(steps, input, c, i),
    decreases i,
{
    if i > 0 {
        lemma_no_stop_all_ok(steps, input, c, i - 1);
        assert(!run_stops_at(steps, input, c, i - 1));
        assert(step_run_ok(steps, input, c, i - 1));
    }
}

/// The content a completed run's receipt must carry for step `i`.
pub open spec fn step_receipt_matches(
    steps: Seq<StepKind>,
    input: Seq<u8>,
    sr: StepReceipt,
    i: int,
) -> bool {
    &&& sr.step_index == i
    &&& sr.step_name@ == spec_step_name(steps[i])
    &&& sr.input_hash@ == spec_hash_hex(payload_at(steps, input, i))
    &&& sr.output_hash@ == spec_hash_hex(payload_at(steps, input, i + 1))
}

/// The content a completed run's receipt must carry, in full.
pub open spec fn receipt_matches(
    steps: Seq<StepKind>,
    run_id: Seq<char>,
    digest: Seq<char>,
    input: Seq<u8>,
    rcpt: Receipt,
) -> bool {
    &&& rcpt.run_id@ == run_id
    &&& rcpt.intent_checksum@ == digest
    &&& rcpt.steps@.len() == steps.len()
    &&& forall|i: int|
        0 <= i < steps.len() ==> #[trigger] step_receipt_matches(steps, input, rcpt.steps@[i], i)
    &&& rcpt.final_trace_hash@ == chain_at(steps, input, steps.len() as int)
}

/// The full functional contract of `run`: for every combination of
/// arguments, exactly one outcome is allowed, and all of its content is a
/// pure function of the arguments.
pub open spec fn run_post(
    steps: Seq<StepKind>,
    run_id: Seq<char>,
    digest: Seq<char>,
    input: Seq<u8>,
    c: Constraints,
    elapsed_ms: u64,
    r: Result<Receipt, EngineError>,
) -> bool {
    &&& (!runtime_allowed(c, elapsed_ms) ==> (r matches Err(e) && e matches EngineError::Constraint(
        ce,
    ) && ce == ConstraintsError::RuntimeLimitExceeded {
        max_runtime_ms: c.max_runtime_ms->0,
        elapsed_ms,
    }))
    &&& (forall|i: int|
        runtime_allowed(c, elapsed_ms) && #[trigger] run_stops_at(steps, input, c, i)
            && !step_allowed(c, i as u64) ==> (r matches Err(e) && e matches EngineError::Constraint(
            ce,
        ) && ce == ConstraintsError::StepLimitExceeded {
            max_steps: c.max_steps->0,
            attempted_step_index: i as u64,
        }))
    &&& (forall|i: int|
        runtime_allowed(c, elapsed_ms) && #[trigger] run_stops_at(steps, input, c, i)
            && step_allowed(c, i as u64) ==> (r matches Err(e) && e matches EngineError::StepFailed {
            step_name,
            reason,
        } && step_name@ == spec_step_name(steps[i]) && reason@ == spec_fail_reason(steps[i])))
    &&& (runtime_allowed(c, elapsed_ms) && steps_ok_upto(steps, input, c, steps.len() as int) ==> (
    r matches Ok(rcpt) && receipt_matches(steps, run_id, digest, input, rcpt)))
    &&& (r is Ok ==> runtime_allowed(c, elapsed_ms) && steps_ok_upto(
        steps,
        input,
        c,
        steps.len() as int,
    ))
}

/// The execution engine: a closed, ordered list of steps.
#[derive(Debug, Clone)]
pub struct Engine {
    pub steps: Vec<StepKind>,
}

impl Engine {
    /// Configures an engine over an explicit, ordered step registry.
    pub fn new(steps: Vec<StepKind>) -> (e: Self)
        ensures
            e.steps@ == steps@,
    {
        Engine { steps }
    }

    /// One deterministic run.
    ///
    /// Checks the runtime bound before any step, then, per step: checks the
    /// step bound, hashes the payload, applies the step, hashes the result,
    /// and folds the trace event into the running hash. A failing step or an
    /// exceeded bound aborts the run with no receipt; a completed run emits
    /// a receipt whose every field is pinned by `run_post`.
    #[verifier::rlimit(60)]
    pub fn run(
        &self,
        run_id: &str,
        intent_digest: &str,
        input: &[u8],
        constraints: &Constraints,
        elapsed_ms: u64,
    ) -> (r: Result<Receipt, EngineError>)
        ensures
            run_post(self.steps@, run_id@, intent_digest@, input@, *constraints, elapsed_ms, r),
    {
        let ghost gsteps = self.steps@;
        let ghost ginput = input@;
        let ghost c = *constraints;
        if let Err(e) = constraints.assert_runtime_allowed(elapsed_ms) {
            return Err(EngineError::Constraint(e));
        }
        let mut payload: Vec<u8> = Vec::new();
        append_bytes(&mut payload, input);
        let mut trace_hash: String = genesis();
        let mut step_receipts: Vec<StepReceipt> = Vec::new();
        let n = self.steps.len();
        let mut i: usize = 0;
        while i < n
            invariant
                n == gsteps.len(),
                gsteps == self.steps@,
                ginput == input@,
                c == *constraints,
                i <= n,
                runtime_allowed(c, elapsed_ms),
                steps_ok_upto(gsteps, ginput, c, i as int),
                payload@ == payload_at(gsteps, ginput, i as int),
                trace_hash@ == chain_at(gsteps, ginput, i as int),
                step_receipts@.len() == i,
                forall|j: int|
                    0 <= j < i ==> #[trigger] step_receipt_matches(
                        gsteps,
                        ginput,
                        step_receipts@[j],
                        j,
                    ),
            decreases n - i,
        {
            if let Err(e) = constraints.assert_step_allowed(i as u64) {
                proof {
                    assert(run_stops_at(gsteps, ginput, c, i as int));
                    assert forall|k: int|
                        runtime_allowed(c, elapsed_ms) && #[trigger] run_stops_at(
                            gsteps,
                            ginput,
                            c,
                            k,
                        ) implies k == i as int by {
                        lemma_stop_unique(gsteps, ginput, c, k, i as int);
                    }
                }
                return Err(EngineError::Constraint(e));
            }
            let input_hash = hash_bytes(payload.as_slice());
            let step = &self.steps[i];
            let name = step_name(step);
            match apply_step(step, &payload) {
                Err(reason) => {
                    proof {
                        assert(run_stops_at(gsteps, ginput, c, i as int));
                        assert forall|k: int|
                            runtime_allowed(c, elapsed_ms) && #[trigger] run_stops_at(
                                gsteps,
                                ginput,
                                c,
                                k,
                            ) implies k == i as int by {
                            lemma_stop_unique(gsteps, ginput, c, k, i as int);
                        }
                    }
                    return Err(EngineError::StepFailed { step_name: name, reason });
                },
                Ok(next) => {
                    let output_hash = hash_bytes(next.as_slice());
                    let event = TraceEvent {
                        step_index: i as u64,
                        step_name: name.clone(),
                        input_hash: input_hash.clone(),
                        output_hash: output_hash.clone(),
                        prev_trace_hash: trace_hash.clone(),
                    };
                    let new_hash = fold_event(&event);
                    step_receipts.push(
                        StepReceipt { step_index: i as u64, step_name: name, input_hash, output_hash },
                    );
                    proof {
                        assert(step_run_ok(gsteps, ginput, c, i as int));
                        assert(payload_at(gsteps, ginput, i + 1) == spec_step_out(
                            gsteps[i as int],
                            payload_at(gsteps, ginput, i as int),
                        ));
                        assert(chain_at(gsteps, ginput, i + 1) == spec_fold(
                            chain_at(gsteps, ginput, i as int),
                            i as u64,
                            spec_step_name(gsteps[i as int]),
                            spec_hash_hex(payload_at(gsteps, ginput, i as int)),
                            spec_hash_hex(payload_at(gsteps, ginput, i + 1)),
                        ));
                    }
                    trace_hash = new_hash;
                    payload = next;
                    i = i + 1;
                },
            }
        }
        proof {
            assert forall|k: int| !(#[trigger] run_stops_at(gsteps, ginput, c, k)) by {
                if run_stops_at(gsteps, ginput, c, k) {
                    assert(step_run_ok(gsteps, ginput, c, k));
                }
            }
        }
        Ok(
            Receipt {
                run_id: run_id.to_owned(),
                intent_checksum: intent_digest.to_owned(),
                final_trace_hash: trace_hash,
                steps: step_receipts,
            },
        )
    }
}

/// Determinism: any two outcomes that satisfy the run contract for the same
/// arguments are observationally identical — byte-identical receipts on
/// success, identical errors on failure.
pub open spec fn receipt_obs_eq(a: Receipt, b: Receipt) -> bool {
    &&& a.run_id@ == b.run_id@
    &&& a.intent_checksum@ == b.intent_checksum@
    &&& a.final_trace_hash@ == b.final_trace_hash@
    &&& a.steps@.len() == b.steps@.len()
    &&& forall|i: int|
        0 <= i < a.steps@.len() ==> step_receipt_obs_eq(#[trigger] a.steps@[i], b.steps@[i])
}

pub open spec fn step_receipt_obs_eq(a: StepReceipt, b: StepReceipt) -> bool {
    &&& a.step_index == b.step_index
    &&& a.step_name@ == b.step_name@
    &&& a.input_hash@ == b.input_hash@
    &&& a.output_hash@ == b.output_hash@
}

pub open spec fn error_obs_eq(a: EngineError, b: EngineError) -> bool {
    match (a, b) {
        (EngineError::Constraint(x), EngineError::Constraint(y)) => x == y,
        (
            EngineError::StepFailed { step_name: n1, reason: r1 },
            EngineError::StepFailed { step_name: n2, reason: r2 },
        ) => n1@ == n2@ && r1@ == r2@,
        _ => false,
    }
}

pub open spec fn result_obs_eq(
    a: Result<Receipt, EngineError>,
    b: Result<Receipt, EngineError>,
) -> bool {
    match (a, b) {
        (Result::Ok(x), Result::Ok(y)) => receipt_obs_eq(x, y),
        (Result::Err(x), Result::Err(y)) => error_obs_eq(x, y),
        _ => false,
    }
}

/// Determinism of the engine: for fixed `(steps, run_id, digest, input,
/// constraints, elapsed)`, any two results allowed by the run contract are
/// observationally identical.
pub proof fn lemma_run_deterministic(
    steps: Seq<StepKind>,
    run_id: Seq<char>,
    digest: Seq<char>,
    input: Seq<u8>,
    c: Constraints,
    elapsed_ms: u64,
    r1: Result<Receipt, EngineError>,
    r2: Result<Receipt, EngineError>,
)
    requires
        run_post(steps, run_id, digest, input, c, elapsed_ms, r1),
        run_post(steps, run_id, digest, input, c, elapsed_ms, r2),
    ensures
        result_obs_eq(r1, r2),
{
    if !runtime_allowed(c, elapsed_ms) {
    } else if exists|i: int| run_stops_at(steps, input, c, i) {
        let i = choose|i: int| run_stops_at(steps, input, c, i);
        assert(run_stops_at(steps, input, c, i));
    } else {
        lemma_no_stop_all_ok(steps, input, c, steps.len() as int);
        assert(steps_ok_upto(steps, input, c, steps.len() as int));
        match (r1, r2) {
            (Result::Ok(a), Result::Ok(b)) => {
                assert(receipt_matches(steps, run_id, digest, input, a));
                assert(receipt_matches(steps, run_id, digest, input, b));
                assert forall|i: int| 0 <= i < a.steps@.len() implies step_receipt_obs_eq(
                    #[trigger] a.steps@[i],
                    b.steps@[i],
                ) by {
                    assert(step_receipt_matches(steps, input, a.steps@[i], i));
                    assert(step_receipt_matches(steps, input, b.steps@[i], i));
                }
            },
            _ => {},
        }
    }
}

/// The engine-facing bounds an intent carries.
pub open spec fn bounds_of_intent(c: envelope::Constraints) -> Constraints {
    Constraints {
        max_steps: Option::Some(c.max_steps as u64),
        max_runtime_ms: Option::Some(c.max_runtime_ms),
        require_logs: c.require_logs,
        privacy: c.privacy,
    }
}

/// Converts an intent's constraints into run bounds.
pub fn intent_bounds(c: &envelope::Constraints) -> (r: Constraints)
    ensures
        r == bounds_of_intent(*c),
{
    Constraints {
        max_steps: Some(c.max_steps as u64),
        max_runtime_ms: Some(c.max_runtime_ms),
        require_logs: c.require_logs,
        privacy: c.privacy,
    }
}

/// Why an independent recomputation rejected a receipt.
#[derive(Debug, Clone, Copy, PartialEq, Eq, Structural)]
pub enum VerificationFailed {
    IntentDigestMismatch,
    TraceHashMismatch,
    OutputMismatch,
}

/// Every step succeeds when replayed on the intent-derived payload.
pub open spec fn all_steps_ok(steps: Seq<StepKind>, input: Seq<u8>) -> bool {
    forall|j: int|
        0 <= j < steps.len() ==> #[trigger] spec_step_ok(steps[j], payload_at(steps, input, j))
}

/// The step part of a receipt matches an independent replay.
pub open spec fn steps_part_ok(steps: Seq<StepKind>, input: Seq<u8>, rcpt: Receipt) -> bool {
    &&& all_steps_ok(steps, input)
    &&& rcpt.steps@.len() == steps.len()
    &&& forall|i: int|
        0 <= i < steps.len() ==> #[trigger] step_receipt_matches(steps, input, rcpt.steps@[i], i)
}

/// A receipt is valid for an intent: the digest, every step record and the
/// final trace hash all match a fresh recomputation from the intent alone.
pub open spec fn receipt_valid_for(steps: Seq<StepKind>, rcpt: Receipt, intent: Intent) -> bool {
    &&& rcpt.intent_checksum@ == spec_request_checksum(spec_protocol(), intent)
    &&& steps_part_ok(steps, enc_inputs(intent.inputs@), rcpt)
    &&& rcpt.final_trace_hash@ == chain_at(
        steps,
        enc_inputs(intent.inputs@),
        steps.len() as int,
    )
}

impl Engine {
    /// Derives a full run from the intent alone: the run id is the intent's
    /// id, the digest is the canonical intent checksum, the initial payload
    /// is the canonical bytes of the intent's inputs, and the bounds are the
    /// intent's own constraints.
    pub fn execute(&self, intent: &Intent, elapsed_ms: u64) -> (r: Result<Receipt, EngineError>)
        ensures
            run_post(
                self.steps@,
                intent.intent_id@,
                spec_request_checksum(spec_protocol(), *intent),
                enc_inputs(intent.inputs@),
                bounds_of_intent(intent.constraints),
                elapsed_ms,
                r,
            ),
    {
        let digest = canonical_intent_digest(intent);
        let input = intent_input_bytes(intent);
        let bounds = intent_bounds(&intent.constraints);
        self.run(intent.intent_id.as_str(), digest.as_str(), input.as_slice(), &bounds, elapsed_ms)
    }

    /// Independently recomputes everything a receipt claims: the intent
    /// digest, a full replay of the steps, and the trace hash. Succeeds
    /// exactly on a valid receipt; the error names the first recomputation
    /// that disagreed.
    #[verifier::rlimit(60)]
    pub fn verify_receipt(&self, receipt: &Receipt, intent: &Intent) -> (r: Result<
        (),
        VerificationFailed,
    >)
        ensures
            r is Ok <==> receipt_valid_for(self.steps@, *receipt, *intent),
            receipt.intent_checksum@ != spec_request_checksum(spec_protocol(), *intent) ==> r
                == Result::<(), VerificationFailed>::Err(VerificationFailed::IntentDigestMismatch),
            receipt.intent_checksum@ == spec_request_checksum(spec_protocol(), *intent)
                && !steps_part_ok(self.steps@, enc_inputs(intent.inputs@), *receipt) ==> r
                == Result::<(), VerificationFailed>::Err(VerificationFailed::OutputMismatch),
            receipt.intent_checksum@ == spec_request_checksum(spec_protocol(), *intent)
                && steps_part_ok(self.steps@, enc_inputs(intent.inputs@), *receipt)
                && receipt.final_trace_hash@ != chain_at(
                self.steps@,
                enc_inputs(intent.inputs@),
                self.steps@.len() as int,
            ) ==> r == Result::<(), VerificationFailed>::Err(VerificationFailed::TraceHashMismatch),
    {
        let ghost gsteps = self.steps@;
        let ghost ginput = enc_inputs(intent.inputs@);
        let digest = canonical_intent_digest(intent);
        if !string_eq(&digest, &receipt.intent_checksum) {
            return Err(VerificationFailed::IntentDigestMismatch);
        }
        let n = self.steps.len();
        if receipt.steps.len() != n {
            return Err(VerificationFailed::OutputMismatch);
        }
        let mut payload = intent_input_bytes(intent);
        let mut trace_hash: String = genesis();
        let mut i: usize = 0;
        while i < n
            invariant
                n == gsteps.len(),
                gsteps == self.steps@,
                ginput == enc_inputs(intent.inputs@),
                receipt.intent_checksum@ == spec_request_checksum(spec_protocol(), *intent),
                receipt.steps@.len() == n,
                i <= n,
                payload@ == payload_at(gsteps, ginput, i as int),
                trace_hash@ == chain_at(gsteps, ginput, i as int),
                forall|j: int|
                    0 <= j < i ==> #[trigger] spec_step_ok(
                        gsteps[j],
                        payload_at(gsteps, ginput, j),
                    ),
                forall|j: int|
                    0 <= j < i ==> #[trigger] step_receipt_matches(
                        gsteps,
                        ginput,
                        receipt.steps@[j],
                        j,
                    ),
            decreases n - i,
        {
            let sr = &receipt.steps[i];
            let input_hash = hash_bytes(payload.as_slice());
            let name = step_name(&self.steps[i]);
            if sr.step_index != (i as u64) || !string_eq(&sr.step_name, &name) || !string_eq(
                &sr.input_hash,
                &input_hash,
            ) {
                proof {
                    assert(!step_receipt_matches(gsteps, ginput, receipt.steps@[i as int], i as int));
                }
                return Err(VerificationFailed::OutputMismatch);
            }
            match apply_step(&self.steps[i], &payload) {
                Err(_) => {
                    proof {
                        assert(!spec_step_ok(gsteps[i as int], payload_at(gsteps, ginput, i as int)));
                        assert(!all_steps_ok(gsteps, ginput));
                    }
                    return Err(VerificationFailed::OutputMismatch);
                },
                Ok(next) => {
                    let output_hash = hash_bytes(next.as_slice());
                    if !string_eq(&sr.output_hash, &output_hash) {
                        proof {
                            assert(!step_receipt_matches(
                                gsteps,
                                ginput,
                                receipt.steps@[i as int],
                                i as int,
                            ));
                        }
                        return Err(VerificationFailed::OutputMismatch);
                    }
                    let event = TraceEvent {
                        step_index: i as u64,
                        step_name: name.clone(),
                        input_hash: input_hash.clone(),
                        output_hash: output_hash.clone(),
                        prev_trace_hash: trace_hash.clone(),
                    };
                    let new_hash = fold_event(&event);
                    proof {
                        assert(payload_at(gsteps, ginput, i + 1) == spec_step_out(
                            gsteps[i as int],
                            payload_at(gsteps, ginput, i as int),
                        ));
                        assert(chain_at(gsteps, ginput, i + 1) == spec_fold(
                            chain_at(gsteps, ginput, i as int),
                            i as u64,
                            spec_step_name(gsteps[i as int]),
                            spec_hash_hex(payload_at(gsteps, ginput, i as int)),
                            spec_hash_hex(payload_at(gsteps, ginput, i + 1)),
                        ));
                    }
                    trace_hash = new_hash;
                    payload = next;
                    i = i + 1;
                },
            }
        }
        if !string_eq(&receipt.final_trace_hash, &trace_hash) {
            return Err(VerificationFailed::TraceHashMismatch);
        }
        Ok(())
    }
}

/// Round trip: a receipt emitted by a completed run for an intent verifies
/// against that same intent.
pub proof fn lemma_receipt_round_trip(
    steps: Seq<StepKind>,
    intent: Intent,
    c: Constraints,
    elapsed_ms: u64,
    rcpt: Receipt,
)
    requires
        run_post(
            steps,
            intent.intent_id@,
            spec_request_checksum(spec_protocol(), intent),
            enc_inputs(intent.inputs@),
            c,
            elapsed_ms,
            Result::Ok(rcpt),
        ),
    ensures
        receipt_valid_for(steps, rcpt, intent),
{
    let input = enc_inputs(intent.inputs@);
    assert(steps_ok_upto(steps, input, c, steps.len() as int));
    assert(receipt_matches(
        steps,
        intent.intent_id@,
        spec_request_checksum(spec_protocol(), intent),
        input,
        rcpt,
    ));
    assert forall|j: int| 0 <= j < steps.len() implies #[trigger] spec_step_ok(
        steps[j],
        payload_at(steps, input, j),
    ) by {
        assert(step_run_ok(steps, input, c, j));
    }
}

/// A minimal explicit event sequencer, kept for simple callers. Advancing
/// folds the event into a running hash, so the same event advanced at
/// different positions of the sequence yields different outputs.
#[derive(Debug)]
pub struct PilgrimEngine {
    ticks: u64,
    state_hash: String,
}

impl View for PilgrimEngine {
    type V = (u64, Seq<char>);

    closed spec fn view(&self) -> (u64, Seq<char>) {
        (self.ticks, self.state_hash@)
    }
}

/// The hash the sequencer carries after folding one event.
pub open spec fn spec_advance_hash(prev: Seq<char>, event: Seq<char>) -> Seq<char> {
    spec_hash_hex(encode_utf8(prev) + enc_str(event))
}

impl Default for PilgrimEngine {
    /// A fresh sequencer: zero ticks, seeded with `GENESIS`.
    fn default() -> (e: Self)
        ensures
            e@.0 == 0,
            e@.1 == spec_genesis(),
    {
        PilgrimEngine { ticks: 0, state_hash: genesis() }
    }
}

impl PilgrimEngine {
    /// A fresh sequencer: zero ticks, seeded with `GENESIS`.
    pub fn new() -> (e: Self)
        ensures
            e@.0 == 0,
            e@.1 == spec_genesis(),
    {
        PilgrimEngine { ticks: 0, state_hash: genesis() }
    }

    /// Advances the sequence by one event and returns the new state hash.
    pub fn advance(&mut self, event: &str) -> (h: String)
        requires
            old(self)@.0 < u64::MAX,
        ensures
            final(self)@.0 == old(self)@.0 + 1,
            final(self)@.1 == spec_advance_hash(old(self)@.1, event@),
            h@ == final(self)@.1,
    {
        let mut bytes: Vec<u8> = Vec::new();
        append_bytes(&mut bytes, self.state_hash.as_str().as_bytes());
        push_str_field(&mut bytes, event);
        proof {
            assert(bytes@ =~= encode_utf8(self.state_hash@) + enc_str(event@));
        }
        let h = hash_bytes(bytes.as_slice());
        self.state_hash = h.clone();
        self.ticks = self.ticks + 1;
        h
    }

    /// Alias of `advance`.
    pub fn step(&mut self, event: &str) -> (h: String)
        requires
            old(self)@.0 < u64::MAX,
        ensures
            final(self)@.0 == old(self)@.0 + 1,
            final(self)@.1 == spec_advance_hash(old(self)@.1, event@),
            h@ == final(self)@.1,
    {
        self.advance(event)
    }

    /// How many events have been advanced.
    pub fn ticks(&self) -> (t: u64)
        ensures
            t == self@.0,
    {
        self.ticks
    }
}


} // verus!
