pub mod app_state;
pub mod data_series;
pub mod graph_state;
pub mod theme;
