//! The `build` use case. The command is declared but not available yet: it
//! always reports so.

use vstd::prelude::*;

use crate::cli::args::BuildArgs;
use crate::config::model::AppConfig;
use crate::support::error::AppError;

verus! {

/// Runs `build`: a runtime error saying that it is not implemented yet.
pub fn execute(_config: &AppConfig, _args: &BuildArgs) -> (r: Result<(), AppError>)
    ensures
        r matches Err(AppError::Runtime(m)) && m@ == "build not yet implemented"@,
{
    Err(AppError::Runtime(String::from_str("build not yet implemented")))
}

} // verus!
