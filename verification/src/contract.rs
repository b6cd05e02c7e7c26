//! Contract decisions: the semantic agreement between identity, mandate and
//! execution.

use vstd::prelude::*;

verus! {

/// The verdict vocabulary shared by contract decisions: `Allow`, `Deny` and
/// `Review` classify a request; `Pass` and `Fail` judge one observed
/// transition.
#[derive(Debug, Clone, PartialEq, Eq)]
pub enum ContractVerdict {
    Allow,
    Deny,
    Review,
    Pass,
    Fail(String),
}

/// A contract decision about one subject and one cartridge.
#[derive(Debug, Clone, PartialEq, Eq)]
pub struct Contract {
    pub subject_id: String,
    pub cartridge_id: String,
    pub verdict: ContractVerdict,
    pub reason: String,
}

impl Contract {
    /// An allowing decision.
    pub fn allow(subject_id: &str, cartridge_id: &str) -> (c: Self)
        ensures
            c.subject_id@ == subject_id@,
            c.cartridge_id@ == cartridge_id@,
            c.verdict == ContractVerdict::Allow,
            c.reason@ == "Contract satisfied"@,
    {
        Contract {
            subject_id: subject_id.to_owned(),
            cartridge_id: cartridge_id.to_owned(),
            verdict: ContractVerdict::Allow,
            reason: "Contract satisfied".to_owned(),
        }
    }

    /// A denying decision, with its reason.
    pub fn deny(subject_id: &str, cartridge_id: &str, reason: &str) -> (c: Self)
        ensures
            c.subject_id@ == subject_id@,
            c.cartridge_id@ == cartridge_id@,
            c.verdict == ContractVerdict::Deny,
            c.reason@ == reason@,
    {
        Contract {
            subject_id: subject_id.to_owned(),
            cartridge_id: cartridge_id.to_owned(),
            verdict: ContractVerdict::Deny,
            reason: reason.to_owned(),
        }
    }

    /// A decision deferred to review, with its reason.
    pub fn review(subject_id: &str, cartridge_id: &str, reason: &str) -> (c: Self)
        ensures
            c.subject_id@ == subject_id@,
            c.cartridge_id@ == cartridge_id@,
            c.verdict == ContractVerdict::Review,
            c.reason@ == reason@,
    {
        Contract {
            subject_id: subject_id.to_owned(),
            cartridge_id: cartridge_id.to_owned(),
            verdict: ContractVerdict::Review,
            reason: reason.to_owned(),
        }
    }
}

/// A rule over one observed state transition. Every implementation passes a
/// transition exactly when the state changed, and otherwise fails with a
/// reason.
pub trait TransitionContract {
    fn evaluate_with(&self, before: u64, after: u64) -> (v: ContractVerdict)
        ensures
            before != after <==> v is Pass,
            before == after ==> (v matches ContractVerdict::Fail(m) && m@
                == "engine advance produced no state change"@),
    ;
}

/// The rule that an engine advance must change the state.
#[derive(Debug, Clone, Copy, PartialEq, Eq, Structural)]
pub struct StepAdvance;

impl TransitionContract for StepAdvance {
    fn evaluate_with(&self, before: u64, after: u64) -> (v: ContractVerdict) {
        if before != after {
            ContractVerdict::Pass
        } else {
            ContractVerdict::Fail("engine advance produced no state change".to_owned())
        }
    }
}

} // verus!
