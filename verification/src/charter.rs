//! The non-negotiable system charter.
//!
//! These declarations constrain what the system is allowed to be. They are
//! globally true, non-contextual, non-adaptive, and enforced by design, not
//! by policy.

use vstd::prelude::*;

verus! {

/// The categories the charter speaks about.
#[derive(Debug, Clone, Copy, PartialEq, Eq, Structural)]
pub enum InvariantCategory {
    Truth,
    Determinism,
    Agency,
    Transparency,
    Safety,
}

/// One declared charter item.
#[derive(Debug, Clone, PartialEq, Eq)]
pub struct Invariant {
    pub id: String,
    pub category: InvariantCategory,
    pub description: String,
}

fn declare(id: &str, category: InvariantCategory, description: &str) -> (inv: Invariant)
    ensures
        inv.id@ == id@,
        inv.category == category,
        inv.description@ == description@,
{
    Invariant { id: id.to_owned(), category, description: description.to_owned() }
}

/// The system charter: two declarations per category, in a fixed order.
pub fn system_invariants() -> (r: Vec<Invariant>)
    ensures
        r@.len() == 10,
        r@[0].id@ == "TRUTH_001"@ && r@[0].category == InvariantCategory::Truth,
        r@[1].id@ == "TRUTH_002"@ && r@[1].category == InvariantCategory::Truth,
        r@[2].id@ == "DET_001"@ && r@[2].category == InvariantCategory::Determinism,
        r@[3].id@ == "DET_002"@ && r@[3].category == InvariantCategory::Determinism,
        r@[4].id@ == "AGENCY_001"@ && r@[4].category == InvariantCategory::Agency,
        r@[5].id@ == "AGENCY_002"@ && r@[5].category == InvariantCategory::Agency,
        r@[6].id@ == "TRANS_001"@ && r@[6].category == InvariantCategory::Transparency,
        r@[7].id@ == "TRANS_002"@ && r@[7].category == InvariantCategory::Transparency,
        r@[8].id@ == "SAFE_001"@ && r@[8].category == InvariantCategory::Safety,
        r@[9].id@ == "SAFE_002"@ && r@[9].category == InvariantCategory::Safety,
{
    let mut out: Vec<Invariant> = Vec::new();
    out.push(
        declare(
            "TRUTH_001",
            InvariantCategory::Truth,
            "All outputs must be derivable from explicit inputs and declared logic.",
        ),
    );
    out.push(
        declare(
            "TRUTH_002",
            InvariantCategory::Truth,
            "No hidden assumptions, priors, or inferred intent may influence output.",
        ),
    );
    out.push(
        declare(
            "DET_001",
            InvariantCategory::Determinism,
            "Identical inputs under identical state must produce identical outputs.",
        ),
    );
    out.push(
        declare(
            "DET_002",
            InvariantCategory::Determinism,
            "System behaviour must not vary based on user identity, emotion, or inferred state.",
        ),
    );
    out.push(
        declare(
            "AGENCY_001",
            InvariantCategory::Agency,
            "The system must never persuade, coerce, or nudge a user toward an outcome.",
        ),
    );
    out.push(
        declare(
            "AGENCY_002",
            InvariantCategory::Agency,
            "All decisions remain with the user; the system provides information only.",
        ),
    );
    out.push(
        declare(
            "TRANS_001",
            InvariantCategory::Transparency,
            "All system outputs must be explainable and auditable.",
        ),
    );
    out.push(
        declare(
            "TRANS_002",
            InvariantCategory::Transparency,
            "No internal state may affect output without being inspectable by design.",
        ),
    );
    out.push(
        declare(
            "SAFE_001",
            InvariantCategory::Safety,
            "The system must fail closed rather than speculate or hallucinate.",
        ),
    );
    out.push(
        declare(
            "SAFE_002",
            InvariantCategory::Safety,
            "Absence of data must result in explicit uncertainty, not inferred completion.",
        ),
    );
    out
}

} // verus!
