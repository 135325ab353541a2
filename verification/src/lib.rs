//! Verified core of an interactive plotting engine: fixed-point view and
//! camera state, shape-preserving downsampling, series alignment and the
//! planning of draw calls.

pub mod app;
pub mod data;
pub mod fixed;
pub mod number_text;
pub mod plot3d;
pub mod processing;
pub mod render;
pub mod state;
pub mod text;
pub mod ui;
