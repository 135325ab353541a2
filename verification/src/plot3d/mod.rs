pub mod camera;
pub mod renderer;
pub mod scene;
