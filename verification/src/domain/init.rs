//! Result of `config init`.

use vstd::prelude::*;

verus! {

/// Outcome of initialisation, step by step.
#[derive(Debug, Clone, PartialEq, Eq)]
pub struct InitResult {
    pub ok: bool,
    pub steps: Vec<InitStep>,
    pub duration_ms: u64,
}

/// One initialisation step.
#[derive(Debug, Clone, PartialEq, Eq)]
pub struct InitStep {
    pub target: String,
    pub action: String,
    pub status: InitStepStatus,
    pub message: Option<String>,
    pub duration_ms: u64,
}

/// Status of an initialisation step.
#[derive(Debug, Clone, Copy, PartialEq, Eq, Structural)]
pub enum InitStepStatus {
    /// The step completed (`ok` in serialized results).
    Succeeded,
    Skipped,
    Failed,
}

} // verus!
