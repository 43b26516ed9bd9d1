pub mod error;
pub mod number;
pub mod path;
pub mod path_order;
pub mod source_descriptor;
pub mod temp;
pub mod text;
