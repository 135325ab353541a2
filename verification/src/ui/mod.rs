pub mod data_selection_dialog;
pub mod graph_panel;
pub mod overlay;
pub mod settings_dialog;
