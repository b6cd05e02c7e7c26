//! The authorization rule set: who may execute what.
//!
//! A mandate is intentionally simple — explicit rules, no crypto, no state,
//! no execution. The core consults it before invoking protected steps; it
//! never evaluates anything beyond rule membership.

use vstd::prelude::*;

verus! {

use crate::codec::{append_str, string_eq};
use crate::identity::Identity;

/// One authorization rule: this subject may execute this cartridge.
#[derive(Debug, Clone, PartialEq, Eq)]
pub struct MandateRule {
    pub subject_id: String,
    pub cartridge_id: String,
}

/// An explicit allow-list of rules.
#[derive(Debug, Clone)]
pub struct Mandate {
    rules: Vec<MandateRule>,
}

impl View for Mandate {
    type V = Seq<MandateRule>;

    closed spec fn view(&self) -> Seq<MandateRule> {
        self.rules@
    }
}

/// Denied: no rule allows the subject to execute the cartridge.
#[derive(Debug, Clone, PartialEq, Eq)]
pub enum MandateError {
    Denied { subject_id: String, cartridge_id: String },
}

impl MandateError {
    /// A human-readable account of the denial.
    pub fn message(&self) -> (r: String)
        ensures
            self matches MandateError::Denied { subject_id, cartridge_id } ==> r@
                == "MANDATE VIOLATION: identity '"@ + subject_id@
                + "' is not allowed to execute cartridge '"@ + cartridge_id@ + "'"@,
    {
        match self {
            MandateError::Denied { subject_id, cartridge_id } => {
                let mut s: String = "MANDATE VIOLATION: identity '".to_owned();
                append_str(&mut s, subject_id.as_str());
                append_str(&mut s, "' is not allowed to execute cartridge '");
                append_str(&mut s, cartridge_id.as_str());
                append_str(&mut s, "'");
                s
            },
        }
    }
}

/// Some rule grants `(subject, cartridge)`.
pub open spec fn grants(rules: Seq<MandateRule>, subject: Seq<char>, cartridge: Seq<char>) -> bool {
    exists|i: int|
        0 <= i < rules.len() && (#[trigger] rules[i].subject_id@) == subject
            && rules[i].cartridge_id@ == cartridge
}

impl Mandate {
    /// A mandate over explicit rules.
    pub fn new(rules: Vec<MandateRule>) -> (m: Self)
        ensures
            m@ == rules@,
    {
        Mandate { rules }
    }

    /// Whether the identity may execute the cartridge: true exactly when
    /// some rule grants the pair.
    pub fn allows(&self, identity: &Identity, cartridge_id: &str) -> (r: bool)
        ensures
            r == grants(self@, identity.subject_id@, cartridge_id@),
    {
        let cart = cartridge_id.to_owned();
        let n = self.rules.len();
        let mut i: usize = 0;
        while i < n
            invariant
                n == self@.len(),
                i <= n,
                cart@ == cartridge_id@,
                forall|j: int|
                    0 <= j < i ==> !((#[trigger] self@[j].subject_id@) == identity.subject_id@
                        && self@[j].cartridge_id@ == cartridge_id@),
            decreases n - i,
        {
            if string_eq(&self.rules[i].subject_id, &identity.subject_id) && string_eq(
                &self.rules[i].cartridge_id,
                &cart,
            ) {
                return true;
            }
            i = i + 1;
        }
        false
    }

    /// Fail-fast enforcement: succeeds exactly when a rule grants the pair,
    /// and otherwise reports the denied pair.
    pub fn enforce(&self, identity: &Identity, cartridge_id: &str) -> (r: Result<(), MandateError>)
        ensures
            r is Ok <==> grants(self@, identity.subject_id@, cartridge_id@),
            !grants(self@, identity.subject_id@, cartridge_id@) ==> (r matches Err(
                MandateError::Denied { subject_id, cartridge_id: c },
            ) && subject_id@ == identity.subject_id@ && c@ == cartridge_id@),
    {
        if self.allows(identity, cartridge_id) {
            Ok(())
        } else {
            Err(MandateError::Denied {
                subject_id: identity.subject_id.clone(),
                cartridge_id: cartridge_id.to_owned(),
            })
        }
    }
}

} // verus!
