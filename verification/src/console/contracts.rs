//! The staged workflow state of a console contract.

use vstd::prelude::*;

verus! {

/// The stages a contract moves through.
#[derive(Debug, Clone, Copy, PartialEq, Eq, Structural)]
pub enum ContractStage {
    Init,
    Validate,
    Build,
    Review,
    Lock,
    Export,
}

/// The current stage of one contract.
#[derive(Debug)]
pub struct ContractState {
    stage: ContractStage,
}

impl View for ContractState {
    type V = ContractStage;

    closed spec fn view(&self) -> ContractStage {
        self.stage
    }
}

impl ContractState {
    /// A contract starts at `Init`.
    pub fn new() -> (s: Self)
        ensures
            s@ == ContractStage::Init,
    {
        ContractState { stage: ContractStage::Init }
    }

    /// The current stage.
    pub fn stage(&self) -> (r: ContractStage)
        ensures
            r == self@,
    {
        self.stage
    }

    /// A contract is complete exactly at `Export`.
    pub fn is_complete(&self) -> (r: bool)
        ensures
            r == (self@ == ContractStage::Export),
    {
        match self.stage {
            ContractStage::Export => true,
            _ => false,
        }
    }

    /// Moves to the given stage.
    pub fn advance(&mut self, next: ContractStage)
        ensures
            final(self)@ == next,
    {
        self.stage = next;
    }
}

} // verus!
