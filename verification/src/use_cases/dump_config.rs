//! The `dump` use case. The command is declared but not available yet: it
//! always reports so.

use vstd::prelude::*;

use crate::cli::args::DumpArgs;
use crate::config::model::AppConfig;
use crate::support::error::AppError;

verus! {

/// Runs `dump`: a runtime error saying that it is not implemented yet.
pub fn execute(_config: &AppConfig, _args: &DumpArgs) -> (r: Result<(), AppError>)
    ensures
        r matches Err(AppError::Runtime(m)) && m@ == "dump not yet implemented"@,
{
    Err(AppError::Runtime(String::from_str("dump not yet implemented")))
}

} // verus!
