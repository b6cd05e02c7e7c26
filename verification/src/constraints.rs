//! Operational bounds that the execution engine enforces.
//!
//! Constraints are pure data. They are evaluated against caller-supplied
//! counters; the engine never reads a clock or any other ambient state.

use vstd::prelude::*;

verus! {

use crate::envelope::PrivacyTier;

/// Bounds for one deterministic run. `None` means "no bound".
#[derive(Debug, Clone, PartialEq, Eq)]
pub struct Constraints {
    pub max_steps: Option<u64>,
    pub max_runtime_ms: Option<u64>,
    pub require_logs: bool,
    pub privacy: PrivacyTier,
}

/// A constraint violation, carrying the bound and the value that broke it.
#[derive(Debug, Clone, Copy, PartialEq, Eq, Structural)]
pub enum ConstraintsError {
    StepLimitExceeded { max_steps: u64, attempted_step_index: u64 },
    RuntimeLimitExceeded { max_runtime_ms: u64, elapsed_ms: u64 },
}

impl Default for Constraints {
    /// The default places no bounds and requires nothing.
    fn default() -> (r: Self)
        ensures
            r.max_steps is None,
            r.max_runtime_ms is None,
            !r.require_logs,
            r.privacy == PrivacyTier::Public,
    {
        Self { max_steps: None, max_runtime_ms: None, require_logs: false, privacy: PrivacyTier::Public }
    }
}

/// True when the constraints allow step number `i` to start.
pub open spec fn step_allowed(c: Constraints, i: u64) -> bool {
    match c.max_steps {
        Option::None => true,
        Option::Some(m) => i < m,
    }
}

/// True when the constraints allow a run that has already taken `elapsed_ms`.
pub open spec fn runtime_allowed(c: Constraints, elapsed_ms: u64) -> bool {
    match c.max_runtime_ms {
        Option::None => true,
        Option::Some(m) => elapsed_ms <= m,
    }
}

impl Constraints {
    /// Fails with `StepLimitExceeded` exactly when `next_step_index` is at or
    /// past the configured step bound.
    pub fn assert_step_allowed(&self, next_step_index: u64) -> (r: Result<(), ConstraintsError>)
        ensures
            r is Ok <==> step_allowed(*self, next_step_index),
            !step_allowed(*self, next_step_index) ==> r == Result::<(), ConstraintsError>::Err(
                ConstraintsError::StepLimitExceeded {
                    max_steps: self.max_steps->0,
                    attempted_step_index: next_step_index,
                },
            ),
    {
        if let Some(max) = self.max_steps {
            if next_step_index >= max {
                return Err(ConstraintsError::StepLimitExceeded {
                    max_steps: max,
                    attempted_step_index: next_step_index,
                });
            }
        }
        Ok(())
    }

    /// Fails with `RuntimeLimitExceeded` exactly when `elapsed_ms` is past the
    /// configured runtime bound.
    pub fn assert_runtime_allowed(&self, elapsed_ms: u64) -> (r: Result<(), ConstraintsError>)
        ensures
            r is Ok <==> runtime_allowed(*self, elapsed_ms),
            !runtime_allowed(*self, elapsed_ms) ==> r == Result::<(), ConstraintsError>::Err(
                ConstraintsError::RuntimeLimitExceeded {
                    max_runtime_ms: self.max_runtime_ms->0,
                    elapsed_ms,
                },
            ),
    {
        if let Some(max) = self.max_runtime_ms {
            if elapsed_ms > max {
                return Err(ConstraintsError::RuntimeLimitExceeded {
                    max_runtime_ms: max,
                    elapsed_ms,
                });
            }
        }
        Ok(())
    }
}

} // verus!
