pub mod bootstrap_project;
pub mod build_project;
pub mod check_syntax;
pub mod client_mcp_readiness;
pub mod context;
pub mod dump_config;
pub mod interruption;
pub mod launch_app;
pub mod run_tests;
