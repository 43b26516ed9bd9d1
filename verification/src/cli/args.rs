//! Parsed command-line arguments. The parser itself lives with the program;
//! these are the values it produces.

use vstd::prelude::*;

verus! {

/// Global options and the chosen command.
#[derive(Debug, Clone, PartialEq, Eq)]
pub struct Cli {
    /// Path to YAML config file.
    pub config: Option<String>,
    /// Output format: `text` or `json`.
    pub output: String,
    /// Log level.
    pub log_level: Option<String>,
    /// Clear log files before execution.
    pub clean_before_execution: bool,
    /// Disable ANSI colors.
    pub no_color: bool,
    /// Override working directory.
    pub workdir: Option<String>,
    pub command: Command,
}

/// The runner's commands.
#[derive(Debug, Clone, PartialEq, Eq)]
pub enum Command {
    /// Load sources into infobase.
    Build(BuildArgs),
    /// Run YaXUnit tests.
    Test(TestArgs),
    /// Dump configuration from infobase to files.
    Dump(DumpArgs),
    /// Run syntax checks.
    Syntax(SyntaxArgs),
    /// Launch 1C application.
    Launch(LaunchArgs),
}

/// Options of `build`.
#[derive(Debug, Clone, Copy, PartialEq, Eq, Structural)]
pub struct BuildArgs {
    /// Clear change cache and rebuild everything.
    pub full_rebuild: bool,
}

/// Options of `test`.
#[derive(Debug, Clone, PartialEq, Eq)]
pub struct TestArgs {
    pub scope: TestScope,
}

/// Which tests `test` runs.
#[derive(Debug, Clone, PartialEq, Eq)]
pub enum TestScope {
    /// Run all tests.
    All,
    /// Run tests for a specific module.
    Module { name: String },
}

/// Options of `dump`.
#[derive(Debug, Clone, PartialEq, Eq)]
pub struct DumpArgs {
    /// Dump mode: `full`, `incremental` or `partial`.
    pub mode: String,
    /// Source set name.
    pub source_set: Option<String>,
    /// Extension name.
    pub extension: Option<String>,
    /// Objects for partial dump (`TYPE:NAME`).
    pub objects: Vec<String>,
}

/// Options of `syntax`.
#[derive(Debug, Clone, PartialEq, Eq)]
pub struct SyntaxArgs {
    pub target: SyntaxTarget,
}

/// What `syntax` checks.
#[derive(Debug, Clone, PartialEq, Eq)]
pub enum SyntaxTarget {
    /// Check configuration via Designer CheckConfig.
    DesignerConfig,
    /// Check modules via Designer CheckModules.
    DesignerModules,
    /// Check via EDT validate.
    Edt { projects: Vec<String> },
}

/// Options of `launch`.
#[derive(Debug, Clone, PartialEq, Eq)]
pub struct LaunchArgs {
    /// Launch mode: `designer`, `thin` or `thick`.
    pub mode: String,
}

} // verus!
