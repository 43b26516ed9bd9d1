//! Result of `dump`.

use vstd::prelude::*;

verus! {

/// Outcome of a configuration dump.
#[derive(Debug, Clone, PartialEq, Eq)]
pub struct DumpResult {
    pub ok: bool,
    pub source_set: Option<String>,
    pub extension: Option<String>,
    pub mode: DumpMode,
    pub target_path: String,
    pub platform_log_path: Option<String>,
    pub duration_ms: u64,
    pub message: Option<String>,
}

/// How much of the configuration a dump writes.
#[derive(Debug, Clone, Copy, PartialEq, Eq, Structural)]
pub enum DumpMode {
    Full,
    Incremental,
    Partial,
}

} // verus!
