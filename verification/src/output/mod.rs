pub mod exit_codes;
pub mod text;
