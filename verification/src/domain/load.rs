//! Results of loading sources into the infobase.

use vstd::prelude::*;

use crate::domain::execution::ExecutionOutcome;

verus! {

/// How sources are applied.
#[derive(Debug, Clone, Copy, PartialEq, Eq, Structural)]
pub enum LoadMode {
    Load,
    Merge,
    Update,
}

/// What kind of configuration the target is.
#[derive(Debug, Clone, Copy, PartialEq, Eq, Structural)]
pub enum LoadTargetKind {
    Unknown,
    Configuration,
    Extension,
}

/// Whether the target supports the load.
#[derive(Debug, Clone, Copy, PartialEq, Eq, Structural)]
pub enum CompatibilityState {
    Supported,
    NotSupported,
    Unknown,
}

/// Payload of a load execution.
#[derive(Debug, Clone, Copy, PartialEq, Eq, Structural)]
pub struct LoadExecutionMetadata {
    pub applied: bool,
    pub target_kind: LoadTargetKind,
    pub compatibility_state: CompatibilityState,
    pub update_db_cfg_ran: bool,
}

/// Outcome of a load.
#[derive(Debug, Clone, PartialEq, Eq)]
pub struct LoadResult {
    pub ok: bool,
    pub mode: LoadMode,
    pub artifact_path: String,
    pub target_kind: LoadTargetKind,
    pub compatibility_state: CompatibilityState,
    pub extension: Option<String>,
    pub platform_log_path: Option<String>,
    pub duration_ms: u64,
    pub message: Option<String>,
    pub execution: ExecutionOutcome<LoadExecutionMetadata>,
}

} // verus!
