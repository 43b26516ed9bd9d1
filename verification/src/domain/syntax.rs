//! Result of `syntax`.

use vstd::prelude::*;

verus! {

/// Outcome of a syntax check.
#[derive(Debug, Clone, PartialEq, Eq)]
pub struct SyntaxCheckResult {
    pub ok: bool,
    pub check_name: String,
    /// Reported issues, one line each.
    pub issues: Vec<String>,
    pub duration_ms: u64,
}

} // verus!
