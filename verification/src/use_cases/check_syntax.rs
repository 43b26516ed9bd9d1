//! The `syntax` use case. The command is declared but not available yet: it
//! always reports so.

use vstd::prelude::*;

use crate::cli::args::SyntaxArgs;
use crate::config::model::AppConfig;
use crate::support::error::AppError;

verus! {

/// Runs `syntax`: a runtime error saying that it is not implemented yet.
pub fn execute(_config: &AppConfig, _args: &SyntaxArgs) -> (r: Result<(), AppError>)
    ensures
        r matches Err(AppError::Runtime(m)) && m@ == "syntax not yet implemented"@,
{
    Err(AppError::Runtime(String::from_str("syntax not yet implemented")))
}

} // verus!
