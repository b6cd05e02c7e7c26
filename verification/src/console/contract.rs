//! The keyed contract state machine.
//!
//! Each key advances the contract by exactly one canonical transition; any
//! other key leaves the state unchanged. The transition function is total
//! and pure, so replaying the same keys always reaches the same state.

use vstd::prelude::*;

verus! {

/// The states of the keyed contract.
#[derive(Debug, Clone, Copy, PartialEq, Eq, Structural)]
pub enum ContractState {
    Init,
    Validate,
    Build,
    Review,
    Lock,
    Export,
    Complete,
}

/// The canonical transition: state `k` advances on key `k` alone.
pub open spec fn spec_transition(s: ContractState, key: u64) -> ContractState {
    match (s, key) {
        (ContractState::Init, 0u64) => ContractState::Validate,
        (ContractState::Validate, 1u64) => ContractState::Build,
        (ContractState::Build, 2u64) => ContractState::Review,
        (ContractState::Review, 3u64) => ContractState::Lock,
        (ContractState::Lock, 4u64) => ContractState::Export,
        (ContractState::Export, 5u64) => ContractState::Complete,
        (other, _) => other,
    }
}

/// A contract driven by key frames.
#[derive(Debug)]
pub struct PianoContract {
    state: ContractState,
}

impl View for PianoContract {
    type V = ContractState;

    closed spec fn view(&self) -> ContractState {
        self.state
    }
}

impl PianoContract {
    /// A contract starts at `Init`.
    pub fn new() -> (c: Self)
        ensures
            c@ == ContractState::Init,
    {
        PianoContract { state: ContractState::Init }
    }

    /// Applies one key frame: exactly the canonical transition, in place.
    pub fn apply_frame(&mut self, key: u64)
        ensures
            final(self)@ == spec_transition(old(self)@, key),
    {
        let next = match (self.state, key) {
            (ContractState::Init, 0u64) => ContractState::Validate,
            (ContractState::Validate, 1u64) => ContractState::Build,
            (ContractState::Build, 2u64) => ContractState::Review,
            (ContractState::Review, 3u64) => ContractState::Lock,
            (ContractState::Lock, 4u64) => ContractState::Export,
            (ContractState::Export, 5u64) => ContractState::Complete,
            (other, _) => other,
        };
        self.state = next;
    }

    /// The current state.
    pub fn state(&self) -> (r: ContractState)
        ensures
            r == self@,
    {
        self.state
    }
}

} // verus!
