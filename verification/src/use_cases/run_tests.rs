//! The `test` use case. The command is declared but not available yet: it
//! always reports so.

pub mod junit_export;

use vstd::prelude::*;

use crate::cli::args::TestArgs;
use crate::config::model::AppConfig;
use crate::support::error::AppError;

verus! {

/// Runs `test`: a runtime error saying that it is not implemented yet.
pub fn execute(_config: &AppConfig, _args: &TestArgs) -> (r: Result<(), AppError>)
    ensures
        r matches Err(AppError::Runtime(m)) && m@ == "test not yet implemented"@,
{
    Err(AppError::Runtime(String::from_str("test not yet implemented")))
}

} // verus!
