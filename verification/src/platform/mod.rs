pub mod connection;
pub mod designer;
pub mod locator;
pub mod process;
