//! The built-in cartridges and the bridge shell.
//!
//! A cartridge is a named, deterministic unit of work. The parts that are
//! pure — identifiers, messages, the sealed flag — live here; presentation
//! concerns such as confidence scoring stay with the embedding application.

use vstd::prelude::*;

verus! {

use crate::codec::{push_dec_chars, spec_dec_chars};

/// Stabilises cognitive drift.
#[derive(Debug, Clone, Copy, PartialEq, Eq, Structural)]
pub struct CognitiveDriftCartridge;

impl CognitiveDriftCartridge {
    pub fn new() -> (c: Self) {
        CognitiveDriftCartridge
    }

    /// Stable identifier for mandate and identity checks.
    pub fn id(&self) -> (r: String)
        ensures
            r@ == "cognitive_drift_v1"@,
    {
        "cognitive_drift_v1".to_owned()
    }

    /// The deterministic outcome message of one tick.
    pub fn message(&self, _tick: u64) -> (r: String)
        ensures
            r@ == "Cognitive drift stabilised"@,
    {
        "Cognitive drift stabilised".to_owned()
    }
}

/// Evaluates neuro discordance.
#[derive(Debug, Clone, Copy, PartialEq, Eq, Structural)]
pub struct NeuroDiscordanceCartridge;

impl NeuroDiscordanceCartridge {
    pub fn new() -> (c: Self) {
        NeuroDiscordanceCartridge
    }

    /// Stable identifier for mandate and identity checks.
    pub fn id(&self) -> (r: String)
        ensures
            r@ == "neuro_discordance_v1"@,
    {
        "neuro_discordance_v1".to_owned()
    }

    /// The deterministic outcome message of one tick.
    pub fn message(&self, _tick: u64) -> (r: String)
        ensures
            r@ == "Neuro discordance evaluated"@,
    {
        "Neuro discordance evaluated".to_owned()
    }
}

/// Resolves threshold ambiguity.
#[derive(Debug, Clone, Copy, PartialEq, Eq, Structural)]
pub struct ThresholdAmbiguityCartridge;

impl ThresholdAmbiguityCartridge {
    pub fn new() -> (c: Self) {
        ThresholdAmbiguityCartridge
    }

    /// Stable identifier for mandate and identity checks.
    pub fn id(&self) -> (r: String)
        ensures
            r@ == "threshold_ambiguity_v1"@,
    {
        "threshold_ambiguity_v1".to_owned()
    }

    /// The deterministic outcome message of one tick.
    pub fn message(&self, _tick: u64) -> (r: String)
        ensures
            r@ == "Threshold ambiguity resolved"@,
    {
        "Threshold ambiguity resolved".to_owned()
    }
}

/// Seals memory once run.
#[derive(Debug, Clone, Copy, PartialEq, Eq, Structural)]
pub struct MemorySeal {
    sealed: bool,
}

impl View for MemorySeal {
    type V = bool;

    closed spec fn view(&self) -> bool {
        self.sealed
    }
}

impl MemorySeal {
    /// A fresh, unsealed instance.
    pub fn new() -> (m: Self)
        ensures
            !m@,
    {
        MemorySeal { sealed: false }
    }

    /// Stable identifier for mandate and identity checks.
    pub fn id(&self) -> (r: String)
        ensures
            r@ == "memory_seal_v1"@,
    {
        "memory_seal_v1".to_owned()
    }

    /// Seals at the given tick and reports it.
    pub fn seal(&mut self, tick: u64) -> (r: String)
        ensures
            final(self)@,
            r@ == "Memory sealed at tick "@ + spec_dec_chars(tick as nat),
    {
        self.sealed = true;
        let mut s: String = "Memory sealed at tick ".to_owned();
        push_dec_chars(&mut s, tick);
        s
    }
}

/// An adapter shell around cartridges: transport and routing live with the
/// embedding application, which depends only on this canonical contract.
#[derive(Debug, Clone, Copy, PartialEq, Eq, Structural)]
pub struct PilgrimBridge;

impl PilgrimBridge {
    pub fn new() -> (b: Self) {
        PilgrimBridge
    }
}

} // verus!
