//! Result of `bootstrap`.

use vstd::prelude::*;

verus! {

/// What `bootstrap` wrote and whether the initial dump ran.
#[derive(Debug, Clone, PartialEq, Eq)]
pub struct BootstrapResult {
    pub ok: bool,
    pub path: String,
    pub local_path: String,
    pub gitignore_path: String,
    pub source_dir: String,
    pub dump_target_path: String,
    pub dumped: bool,
    pub warnings: Vec<String>,
    pub message: Option<String>,
    pub duration_ms: u64,
}

} // verus!
