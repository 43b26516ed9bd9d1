pub mod bootstrap;
pub mod dump;
pub mod execution;
pub mod init;
pub mod launch;
pub mod load;
pub mod partial_dump_selector;
pub mod source_set;
pub mod syntax;
