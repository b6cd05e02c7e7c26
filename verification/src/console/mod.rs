//! Console-facing contracts: staged workflow state and the manifest.

pub mod contract;
pub mod contracts;
pub mod manifest;
