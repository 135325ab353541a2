pub mod datetime;
pub mod loader;
pub mod number;
pub mod parser;
pub mod unit_inference;
