//! The stable interface tag every console variant plugs into.

use vstd::prelude::*;

verus! {

/// What a console offers its variants.
#[derive(Debug, Clone, PartialEq, Eq)]
pub struct ConsoleManifest {
    pub console_version: String,
    pub deterministic_core: bool,
    pub ledger_enabled: bool,
    pub supports_variants: bool,
}

impl ConsoleManifest {
    /// The first stable manifest.
    pub fn v1() -> (m: Self)
        ensures
            m.console_version@ == "pilgrim-console-v1.0.1"@,
            m.deterministic_core,
            m.ledger_enabled,
            m.supports_variants,
    {
        ConsoleManifest {
            console_version: "pilgrim-console-v1.0.1".to_owned(),
            deterministic_core: true,
            ledger_enabled: true,
            supports_variants: true,
        }
    }
}

} // verus!
