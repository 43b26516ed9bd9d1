//! Application-level error shared by the use cases.

use vstd::prelude::*;

use crate::config::loader::ConfigLoadError;

verus! {

/// Application error, classified by the exit code it maps to.
#[derive(Debug, Clone, PartialEq, Eq)]
pub enum AppError {
    /// Bad configuration or bad arguments.
    Validation(String),
    /// A platform command failed or produced unusable output.
    Runtime(String),
    /// The platform could not be found or started.
    Platform(String),
    /// The configuration could not be loaded.
    Config(ConfigLoadError),
}

/// The exit code an error maps to.
pub open spec fn spec_exit_code(e: AppError) -> i32 {
    match e {
        AppError::Validation(_) => 2,
        AppError::Runtime(_) => 3,
        AppError::Platform(_) => 4,
        AppError::Config(_) => 2,
    }
}

impl AppError {
    /// Process exit code for this error.
    pub fn exit_code(&self) -> (code: i32)
        ensures
            code == spec_exit_code(*self),
    {
        match self {
            AppError::Validation(_) => crate::output::exit_codes::VALIDATION_ERROR,
            AppError::Runtime(_) => crate::output::exit_codes::RUNTIME_ERROR,
            AppError::Platform(_) => crate::output::exit_codes::PLATFORM_ERROR,
            AppError::Config(e) => e.exit_code(),
        }
    }
}

} // verus!
