//! The command-line surface of the runner, as plain values.

pub mod args;
