//! Status vocabulary of the orchestration boundary.

use vstd::prelude::*;

verus! {

/// Lifecycle of one orchestrated execution.
#[derive(Debug, Clone, Copy, PartialEq, Eq, Structural)]
pub enum PianoStatus {
    Accepted,
    Executing,
    Completed,
    Rejected,
}

/// The states a single key can be in.
#[derive(Debug, Clone, Copy, PartialEq, Eq, Structural)]
pub enum PianoKeyState {
    Locked,
    Ready,
    Completed,
}

} // verus!
