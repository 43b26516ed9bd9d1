pub mod analyzer;
pub mod file_state;
pub mod hash_storage;
pub mod partial_load;
