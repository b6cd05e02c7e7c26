//! The fail-closed state sentinel.
//!
//! `before` captures a content fingerprint of the serialized state — never a
//! fingerprint of the state's shape or type, which would miss in-place value
//! mutation. `after` recomputes the fingerprint and compares: on a match the
//! operation proceeds; on a mismatch a drift event is durably recorded first,
//! and then the sentinel fails closed. The terminal action is an explicit
//! outcome: enforcing callers treat `Halted` as an irreversible stop, while
//! detecting callers receive the violation as data. Fingerprinting and
//! recording are identical in both modes.

use vstd::prelude::*;

verus! {

use crate::codec::{hash_bytes, spec_hash_hex};
use crate::invariants::{InvariantClass, InvariantSpec};
use crate::ledger::{DriftEvent, DriftLedger};

/// Carries only the pre-state fingerprint; it has no other identity and is
/// never persisted.
#[derive(Debug, Clone, PartialEq, Eq)]
pub struct SentinelToken {
    pub hash: String,
}

/// What a violation terminates: the whole operation, or only the check.
#[derive(Debug, Clone, Copy, PartialEq, Eq, Structural)]
pub enum SentinelMode {
    /// Halt the protected operation unconditionally: no retry, no partial
    /// continuation.
    Enforce,
    /// Return the violation as a typed outcome; used by composable callers
    /// and test harnesses.
    Detect,
}

/// The outcome of the post-operation check.
#[derive(Debug, Clone, PartialEq, Eq)]
pub enum SentinelOutcome {
    /// Fingerprints matched: the operation proceeds under a continuation
    /// token.
    Proceed(SentinelToken),
    /// Enforce mode: the operation is halted irreversibly; the recorded
    /// drift event is attached for the outermost caller.
    Halted(DriftEvent),
    /// Detect mode: the violation is handed back as data.
    Violation(DriftEvent),
}

/// The ledger name of an invariant class.
pub open spec fn spec_class_name(c: InvariantClass) -> Seq<char> {
    match c {
        InvariantClass::Schema => "schema"@,
        InvariantClass::Value => "value"@,
        InvariantClass::Transition => "transition"@,
        InvariantClass::Temporal => "temporal"@,
        InvariantClass::Distribution => "distribution"@,
    }
}

/// The ledger name of an invariant class, as a value.
pub fn class_name(c: InvariantClass) -> (s: String)
    ensures
        s@ == spec_class_name(c),
{
    match c {
        InvariantClass::Schema => "schema".to_owned(),
        InvariantClass::Value => "value".to_owned(),
        InvariantClass::Transition => "transition".to_owned(),
        InvariantClass::Temporal => "temporal".to_owned(),
        InvariantClass::Distribution => "distribution".to_owned(),
    }
}

/// The before/after fingerprint guard.
pub struct Sentinel;

impl Sentinel {
    /// Captures the fingerprint of the serialized pre-operation state.
    /// The label is the caller's own marker and takes no part in the
    /// fingerprint.
    pub fn before(state: &[u8], _label: &str) -> (t: SentinelToken)
        ensures
            t.hash@ == spec_hash_hex(state@),
    {
        SentinelToken { hash: hash_bytes(state) }
    }

    /// Recomputes the fingerprint of the post-operation state and compares
    /// it to the token. Equal fingerprints proceed with no ledger write.
    /// Unequal fingerprints record exactly one drift event — before any
    /// terminal action — and then fail closed: `Halted` under `Enforce`,
    /// `Violation` under `Detect`.
    pub fn after(
        token: &SentinelToken,
        state_after: &[u8],
        domain: &str,
        inv: &InvariantSpec,
        mode: SentinelMode,
        ledger: &mut DriftLedger,
    ) -> (r: SentinelOutcome)
        ensures
            token.hash@ == spec_hash_hex(state_after@) ==> (r matches SentinelOutcome::Proceed(t)
                && t.hash@ == token.hash@ && final(ledger).events@ == old(ledger).events@),
            token.hash@ != spec_hash_hex(state_after@) ==> {
                &&& final(ledger).events@.len() == old(ledger).events@.len() + 1
                &&& forall|i: int|
                    0 <= i < old(ledger).events@.len() ==> final(ledger).events@[i] == old(
                        ledger,
                    ).events@[i]
                &&& drift_fields_ok(
                    final(ledger).events@.last(),
                    token.hash@,
                    spec_hash_hex(state_after@),
                    domain@,
                    *inv,
                )
                &&& (mode == SentinelMode::Enforce ==> (r matches SentinelOutcome::Halted(ev)
                    && drift_fields_ok(
                    ev,
                    token.hash@,
                    spec_hash_hex(state_after@),
                    domain@,
                    *inv,
                )))
                &&& (mode == SentinelMode::Detect ==> (r matches SentinelOutcome::Violation(ev)
                    && drift_fields_ok(
                    ev,
                    token.hash@,
                    spec_hash_hex(state_after@),
                    domain@,
                    *inv,
                )))
            },
    {
        let after_hash = hash_bytes(state_after);
        if crate::codec::string_eq(&token.hash, &after_hash) {
            return SentinelOutcome::Proceed(SentinelToken { hash: token.hash.clone() });
        }
        let class = class_name(inv.class);
        let event = ledger.record(
            domain,
            inv.id.as_str(),
            class.as_str(),
            token.hash.as_str(),
            after_hash.as_str(),
        );
        match mode {
            SentinelMode::Enforce => SentinelOutcome::Halted(event),
            SentinelMode::Detect => SentinelOutcome::Violation(event),
        }
    }
}

/// A recorded drift event carries exactly the violation's content.
pub open spec fn drift_fields_ok(
    ev: DriftEvent,
    before: Seq<char>,
    after: Seq<char>,
    domain: Seq<char>,
    inv: InvariantSpec,
) -> bool {
    &&& ev.domain@ == domain
    &&& ev.invariant_id@ == inv.id@
    &&& ev.class@ == spec_class_name(inv.class)
    &&& ev.before_hash@ == before
    &&& ev.after_hash@ == after
}

} // verus!
