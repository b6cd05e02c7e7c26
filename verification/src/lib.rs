//! A deterministic attestation and enforcement core.
//!
//! The crate turns an untrusted intent into a tamper-evident, independently
//! verifiable execution receipt, persists records in an append-only
//! hash-chained ledger, and fails closed when an internal invariant is
//! violated. Every decision is a pure function of explicit inputs: no clock,
//! no randomness, no ambient state.

pub mod aegis;
pub mod cartridges;
pub mod charter;
pub mod codec;
pub mod console;
pub mod constraints;
pub mod contract;
pub mod engine;
pub mod envelope;
pub mod identity;
pub mod invariants;
pub mod ledger;
pub mod mandate;
pub mod piano;
pub mod principal;
pub mod receipt;
pub mod sentinel;
pub mod store;
pub mod trace;
