pub mod downsampling;
pub mod math_ops;
pub mod sorting;
pub mod statistics;
