pub mod loader;
pub mod model;
pub mod validate;
