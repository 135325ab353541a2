pub mod extent;
pub mod gpu_plot;
pub mod gpu_types;
pub mod grid;
pub mod plot_interaction;
