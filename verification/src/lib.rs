//! Core logic of a command-line runner for 1C:Enterprise development
//! workflows: configuration checks, change detection, platform discovery,
//! process bookkeeping and launch planning.

pub mod change_detection;
pub mod cli;
pub mod config;
pub mod domain;
pub mod output;
pub mod platform;
pub mod support;
pub mod use_cases;
