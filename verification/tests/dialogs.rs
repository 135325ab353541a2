use oxideplot::app::{
    apply_sync, crop_pixels, crop_region, export_csv, graph_count_label, import_columns,
    is_time_name, keep_finite_rows, panel_height, resolve_x_column, selection_is_valid,
    toggle_sync, CropRegion, SyncDialogState,
};
use oxideplot::data::loader::{load_csv, LoadedData};
use oxideplot::fixed::NAN;
use oxideplot::processing::math_ops::MathOp;
use oxideplot::render::gpu_types::Rgba;
use oxideplot::render::plot_interaction::ScreenRect;
use oxideplot::state::app_state::AppState;
use oxideplot::state::data_series::{DataSeries, PlotMode};
use oxideplot::state::graph_state::GraphState;
use oxideplot::ui::data_selection_dialog::{ColumnSelection, DataSelectionState, DialogResult};
use oxideplot::ui::settings_dialog::{
    apply_math, apply_unit_conversion, get_selected_ids, refresh_stats, series_report,
    swap_series, MathOutcome, SettingsDialogState, UnitPreset, MATH_TOLERANCE,
};

const U: i64 = 1_000_000;

fn texts(values: &[&str]) -> Vec<String> {
    values.iter().map(|s| s.to_string()).collect()
}

fn table() -> LoadedData {
    load_csv("Time,Temp,Note,Depth\n0,20.5,a,1\n1,21.5,b,2\n2,x,c,3\n").unwrap()
}

#[test]
fn dialog_offers_the_usable_columns() {
    let state = DataSelectionState::new(table(), 4);
    assert_eq!(state.target_graph_id, 4);
    assert_eq!(state.usable_columns, vec![0, 1, 3]);
    assert_eq!(state.selected_x, 0);
    assert_eq!(state.selected_y, vec![false, false, false]);
    assert_eq!(state.selected_z, None);
    assert!(!state.any_y_selected());
    assert!(state.selection().is_none());
}

fn loaded(columns: &[&str], column_data: &[&[&str]]) -> LoadedData {
    LoadedData {
        columns: texts(columns),
        column_data: column_data.iter().map(|c| texts(c)).collect(),
        row_count: column_data.first().map(|c| c.len()).unwrap_or(0),
    }
}

#[test]
fn dialog_offers_all_columns_if_none_is_usable() {
    let state = DataSelectionState::new(loaded(&["a", "b"], &[&["x", "z"], &["y", "w"]]), 1);
    assert_eq!(state.usable_columns, vec![0, 1]);
    let timed = loaded(&["Timestamp", "b"], &[&["x"], &["y"]]);
    assert_eq!(DataSelectionState::new(timed, 1).usable_columns, vec![0]);
    let half = loaded(&["n", "m"], &[&["1", "x"], &["x", "y"]]);
    assert_eq!(DataSelectionState::new(half, 1).usable_columns, vec![0]);
    let less = loaded(&["n", "m"], &[&["1", "x", "y"], &[" 1 ", "2e3", "-.5"]]);
    assert_eq!(DataSelectionState::new(less, 1).usable_columns, vec![1]);
    let empty = loaded(&["n", "time"], &[&[], &[]]);
    assert_eq!(DataSelectionState::new(empty, 1).usable_columns, vec![1]);
    let none = loaded(&[], &[]);
    assert!(DataSelectionState::new(none, 1).usable_columns.is_empty());
}

#[test]
fn dialog_hands_over_the_chosen_columns() {
    let mut state = DataSelectionState::new(table(), 4);
    state.selected_x = 2;
    state.selected_y[0] = true;
    state.selected_y[1] = true;
    state.selected_z = Some(2);
    assert!(state.any_y_selected());
    let selection = state.selection().unwrap();
    assert_eq!(selection.graph_id, 4);
    assert_eq!(selection.x_col_index, 3);
    assert_eq!(selection.y_col_indices, vec![0, 1]);
    assert_eq!(selection.z_col_index, Some(3));
    match DialogResult::Accepted(selection) {
        DialogResult::Accepted(s) => assert_eq!(s.x_col_index, 3),
        DialogResult::Cancel => panic!("the dialog was accepted"),
    }
}

#[test]
fn x_column_as_numbers_dates_or_rows() {
    let numbers = resolve_x_column("Depth", &texts(&["1", "2", "3.5"]));
    assert_eq!((numbers.values, numbers.is_datetime), (vec![U, 2 * U, 3_500_000], false));
    let seconds = resolve_x_column("RTC-TIME", &texts(&["1", "2"]));
    assert!(seconds.is_datetime);
    let dates = resolve_x_column("when", &texts(&["2020-01-01", "2020-01-02"]));
    assert!(dates.is_datetime);
    assert_eq!(dates.values, vec![1_577_836_800_000_000, 1_577_923_200_000_000]);
    let repaired = resolve_x_column(
        "Date",
        &texts(&["2020-01-01 00:00:00", "1970-01-01 00:00:05", "2020-01-01 00:01:00"]),
    );
    assert_eq!(
        repaired.values,
        vec![1_577_836_800_000_000, 1_577_836_810_000_000, 1_577_836_860_000_000]
    );
    let names = resolve_x_column("label", &texts(&["a", "b", "c"]));
    assert_eq!((names.values, names.is_datetime), (vec![0, U, 2 * U], false));
    let poor_time = resolve_x_column("time", &texts(&["a", "1"]));
    assert_eq!((poor_time.values, poor_time.is_datetime), (vec![NAN, U], false));
    assert!(is_time_name("Timestamp") && is_time_name("DATE") && is_time_name("RTC-TIME"));
    assert!(!is_time_name("rtc") && !is_time_name("depth"));
}

#[test]
fn rows_with_what_is_no_number_are_dropped() {
    let x = vec![1, 2, NAN, 4, 5];
    let y = vec![10, NAN, 30, 40];
    let rows = keep_finite_rows(&x, &y, &None);
    assert_eq!((rows.x, rows.y, rows.z), (vec![1, 4], vec![10, 40], Vec::new()));
    let z = Some(vec![7, 8, 9, NAN, 1]);
    let rows = keep_finite_rows(&x, &y, &z);
    assert_eq!((rows.x, rows.y, rows.z), (vec![1], vec![10], vec![7]));
}

#[test]
fn columns_become_series() {
    let data = table();
    let mut state = AppState::new();
    let selection =
        ColumnSelection { graph_id: 1, x_col_index: 0, y_col_indices: vec![1, 3], z_col_index: None };
    assert!(selection_is_valid(&data, &selection));
    assert_eq!(import_columns(&mut state, &data, &selection), 2);
    let g = &state.graphs[0];
    assert_eq!(g.title, "Time vs. Multiple Data");
    assert_eq!(g.x_axis_name.as_deref(), Some("Time"));
    assert_eq!(g.x_axis_is_datetime, Some(true));
    assert_eq!(g.plot_mode, PlotMode::Plot2D);
    assert_eq!(g.series.len(), 2);
    assert_eq!(g.series[0].label, "Temp (\u{00B0}C)");
    assert_eq!(g.series[0].unit, "\u{00B0}C");
    assert_eq!(g.series[0].x, vec![0, U]);
    assert_eq!(g.series[0].y, vec![20_500_000, 21_500_000]);
    assert_eq!(g.series[0].color, [255, 0, 0, 255]);
    assert_eq!(g.series[0].id, 1);
    assert_eq!(g.series[1].label, "Depth (units)");
    assert_eq!(g.series[1].x, vec![0, U, 2 * U]);
    assert_eq!(g.series[1].color, [0, 255, 0, 255]);
    assert_eq!(g.series[1].id, 2);
    assert_eq!(state.series_ids, 3);
    assert_eq!(g.y_axes.len(), 2);

    // a second import keeps title and axis name
    let again =
        ColumnSelection { graph_id: 1, x_col_index: 3, y_col_indices: vec![0], z_col_index: None };
    assert_eq!(import_columns(&mut state, &data, &again), 1);
    assert_eq!(state.graphs[0].title, "Time vs. Multiple Data");
    assert_eq!(state.graphs[0].series.len(), 3);
    assert_eq!(state.graphs[0].series[2].label, "Time (units)");
}

#[test]
fn columns_in_space_and_columns_without_numbers() {
    let data = table();
    let mut state = AppState::new();
    let selection = ColumnSelection {
        graph_id: 1,
        x_col_index: 0,
        y_col_indices: vec![2, 1],
        z_col_index: Some(3),
    };
    assert_eq!(import_columns(&mut state, &data, &selection), 1);
    let g = &state.graphs[0];
    assert_eq!(g.plot_mode, PlotMode::Plot3D);
    assert_eq!(g.title, "Time vs. Multiple Data");
    assert_eq!(g.series.len(), 1);
    assert_eq!(g.series[0].z, vec![U, 2 * U]);
    assert!(g.series[0].has_z());

    let mut single = AppState::new();
    let one =
        ColumnSelection { graph_id: 1, x_col_index: 3, y_col_indices: vec![1], z_col_index: None };
    assert_eq!(import_columns(&mut single, &data, &one), 1);
    assert_eq!(single.graphs[0].title, "Depth vs. Temp");
    assert_eq!(single.graphs[0].x_axis_is_datetime, Some(false));

    let missing =
        ColumnSelection { graph_id: 9, x_col_index: 0, y_col_indices: vec![1], z_col_index: None };
    assert_eq!(import_columns(&mut single, &data, &missing), 0);
    let wrong =
        ColumnSelection { graph_id: 1, x_col_index: 0, y_col_indices: vec![4], z_col_index: None };
    assert!(!selection_is_valid(&data, &wrong));
    let wrong_z =
        ColumnSelection { graph_id: 1, x_col_index: 0, y_col_indices: vec![], z_col_index: Some(4) };
    assert!(!selection_is_valid(&data, &wrong_z));
}

fn series(id: u64, label: &str, unit: &str, x: &[i64], y: &[i64]) -> DataSeries {
    DataSeries::new(
        id,
        label.to_string(),
        x.iter().map(|v| v * U).collect(),
        y.iter().map(|v| v * U).collect(),
        [1, 2, 3, 4],
        unit.to_string(),
    )
}

fn two_series() -> GraphState {
    let mut g = GraphState::new(1);
    g.add_series(series(10, "Temp (\u{00B0}F)", "\u{00B0}F", &[0, 1, 2], &[32, 212, 50]));
    g.add_series(series(11, "Other (\u{00B0}F)", "\u{00B0}F", &[0, 1, 5], &[1, 2, 3]));
    g
}

#[test]
fn settings_dialog_defaults() {
    let s = SettingsDialogState::new(3, 2);
    assert_eq!(s.graph_id, 3);
    assert_eq!(s.selected_series, vec![false, false]);
    assert_eq!(s.math_op, MathOp::Add);
    assert_eq!(s.math_error, "");
    assert_eq!(s.unit_new_name, "");
    assert_eq!(s.unit_factor, "1.0");
    assert_eq!(s.unit_bias, "0.0");
    assert!(s.stats_cache.is_none());
    assert_eq!(MATH_TOLERANCE, 10);
}

#[test]
fn presets_fill_the_unit_fields() {
    let mut s = SettingsDialogState::new(1, 0);
    s.apply_preset(UnitPreset::FahrenheitToCelsius);
    assert_eq!((s.unit_new_name.as_str(), s.unit_factor.as_str(), s.unit_bias.as_str()), ("\u{00B0}C", "0.555556", "-32"));
    s.apply_preset(UnitPreset::CelsiusToFahrenheit);
    assert_eq!((s.unit_new_name.as_str(), s.unit_factor.as_str(), s.unit_bias.as_str()), ("\u{00B0}F", "1.8", "32"));
    s.apply_preset(UnitPreset::PsiToKilopascal);
    assert_eq!((s.unit_new_name.as_str(), s.unit_factor.as_str(), s.unit_bias.as_str()), ("kPa", "6.89476", "0"));
    s.apply_preset(UnitPreset::KilopascalToPsi);
    assert_eq!((s.unit_new_name.as_str(), s.unit_factor.as_str(), s.unit_bias.as_str()), ("psi", "0.145038", "0"));
}

#[test]
fn ticked_series() {
    let g = two_series();
    let mut s = SettingsDialogState::new(1, 2);
    assert!(get_selected_ids(&s, &g).is_empty());
    s.selected_series = vec![false, true, true];
    assert_eq!(get_selected_ids(&s, &g), vec![11]);
    s.selected_series = vec![true, true];
    assert_eq!(get_selected_ids(&s, &g), vec![10, 11]);
}

#[test]
fn unit_conversion() {
    let mut g = two_series();
    let mut s = SettingsDialogState::new(1, 2);
    s.selected_series[0] = true;
    assert!(!apply_unit_conversion(&s, &mut g));
    s.apply_preset(UnitPreset::FahrenheitToCelsius);
    assert!(apply_unit_conversion(&s, &mut g));
    assert_eq!(g.series[0].unit, "\u{00B0}C");
    assert_eq!(g.series[0].label, "Temp (\u{00B0}C)");
    assert_eq!(g.series[0].y, vec![0, 100_000_080, 10_000_008]);
    assert!(g.series[0].needs_resample);
    assert_eq!(g.series[1].unit, "\u{00B0}F");
    assert_eq!(g.series[1].y, vec![U, 2 * U, 3 * U]);
    assert_eq!(g.series[1].label, "Other (\u{00B0}F)");
}

#[test]
fn unit_conversion_needs_valid_fields() {
    let mut g = two_series();
    let mut s = SettingsDialogState::new(1, 2);
    s.selected_series[0] = true;
    s.unit_new_name = "K".to_string();
    s.unit_factor = "0".to_string();
    assert!(!apply_unit_conversion(&s, &mut g));
    s.unit_factor = "two".to_string();
    assert!(!apply_unit_conversion(&s, &mut g));
    s.unit_factor = "1".to_string();
    s.unit_bias = "".to_string();
    assert!(!apply_unit_conversion(&s, &mut g));
    s.unit_bias = "1e40".to_string();
    assert!(!apply_unit_conversion(&s, &mut g));
    s.unit_bias = "273.15".to_string();
    g.series[0].label = "plain".to_string();
    assert!(apply_unit_conversion(&s, &mut g));
    assert_eq!(g.series[0].label, "plain (K)");
    assert_eq!(g.series[0].y[0], 305_150_000);
    g.series[0].label = "a (b) (c)".to_string();
    assert!(apply_unit_conversion(&s, &mut g));
    assert_eq!(g.series[0].label, "a (K)");
}

#[test]
fn arithmetic_between_two_series() {
    let mut g = two_series();
    let mut s = SettingsDialogState::new(1, 2);
    let mut ids: u64 = 50;
    assert_eq!(apply_math(&mut s, &mut g, &mut ids), MathOutcome::NotApplicable);
    s.selected_series = vec![true, true];
    s.math_op = MathOp::Subtract;
    assert_eq!(apply_math(&mut s, &mut g, &mut ids), MathOutcome::Added);
    assert_eq!(g.series.len(), 3);
    let added = &g.series[2];
    assert_eq!(added.id, 50);
    assert_eq!(ids, 51);
    assert_eq!(added.label, "Temp (\u{00B0}F) - Other (\u{00B0}F)");
    assert_eq!(added.unit, "\u{00B0}F");
    assert_eq!(added.x, vec![0, U]);
    assert_eq!(added.y, vec![31 * U, 210 * U]);
    assert_eq!(added.color, [0, 0, 255, 255]);
    assert_eq!(s.selected_series, vec![true, true, false]);
    assert_eq!(s.math_error, "");
}

#[test]
fn arithmetic_failure_is_kept_for_display() {
    let mut g = GraphState::new(1);
    g.add_series(series(1, "a", "V", &[0], &[1]));
    g.add_series(series(2, "b", "A", &[5], &[1]));
    let mut s = SettingsDialogState::new(1, 2);
    s.selected_series = vec![true, true];
    let mut ids: u64 = 9;
    assert_eq!(apply_math(&mut s, &mut g, &mut ids), MathOutcome::Failed);
    assert_eq!(s.math_error, "No matching x-values found. Cannot perform math operation.");
    assert_eq!(g.series.len(), 2);
    assert_eq!(ids, 9);
    g.series[1].x = vec![0];
    s.math_op = MathOp::Multiply;
    assert_eq!(apply_math(&mut s, &mut g, &mut ids), MathOutcome::Added);
    assert_eq!(g.series[2].unit, "units");
    assert_eq!(g.series[2].label, "a \u{00d7} b");
    assert_eq!(s.math_error, "");
}

#[test]
fn series_swap_keeps_the_ticks_with_the_series() {
    let mut g = two_series();
    g.add_series(series(12, "third", "V", &[0], &[0]));
    let mut s = SettingsDialogState::new(1, 3);
    s.selected_series = vec![true, false, false];
    swap_series(&mut s, &mut g, 0, 2);
    assert_eq!(g.series.iter().map(|x| x.id).collect::<Vec<u64>>(), vec![12, 11, 10]);
    assert_eq!(s.selected_series, vec![false, false, true]);
    swap_series(&mut s, &mut g, 1, 1);
    swap_series(&mut s, &mut g, 1, 3);
    assert_eq!(g.series.iter().map(|x| x.id).collect::<Vec<u64>>(), vec![12, 11, 10]);
    swap_series(&mut s, &mut g, 2, 1);
    assert_eq!(g.series.iter().map(|x| x.id).collect::<Vec<u64>>(), vec![12, 10, 11]);
    assert_eq!(s.selected_series, vec![false, true, false]);
}

#[test]
fn statistics_report_is_cached() {
    let mut g = two_series();
    g.series[1].y = vec![NAN, NAN, NAN];
    let mut s = SettingsDialogState::new(1, 2);
    refresh_stats(&mut s, &g);
    assert!(s.stats_cache.is_none());
    s.selected_series = vec![true, true];
    refresh_stats(&mut s, &g);
    let (ids, report) = s.stats_cache.clone().unwrap();
    assert_eq!(ids, vec![10, 11]);
    assert_eq!(
        report,
        "Temp (\u{00B0}F):\n  Count: 3\n  Min: 32.000\n  Max: 212.000\n  Peak-to-Peak: 180.000\n  Mean: 98.000\n  Median: 50.000\n  Std Dev: 80.944\n\nOther (\u{00B0}F):\n  No valid numeric data.\n\n"
    );
    assert_eq!(series_report(&g.series[1]), "Other (\u{00B0}F):\n  No valid numeric data.\n\n");
    g.series[0].y = vec![0, 0, 0];
    refresh_stats(&mut s, &g);
    assert_eq!(s.stats_cache.clone().unwrap().1, report);
    s.selected_series = vec![true, false];
    refresh_stats(&mut s, &g);
    assert_eq!(s.stats_cache.clone().unwrap().0, vec![10]);
    s.selected_series = vec![false, false];
    refresh_stats(&mut s, &g);
    assert!(s.stats_cache.is_none());
}

#[test]
fn sync_dialog_and_toggle() {
    let mut state = AppState::new();
    assert!(SyncDialogState::open(&state, 1).is_none());
    assert!(toggle_sync(&mut state, 1).is_none());
    state.add_graph().title = "second".to_string();
    state.add_graph();
    let mut dialog = toggle_sync(&mut state, 2).unwrap();
    assert_eq!(dialog.source_graph_id, 2);
    assert_eq!(
        dialog.available_graphs,
        vec![(1, "Title".to_string()), (3, "Title".to_string())]
    );
    assert_eq!(dialog.selected, vec![false, false]);
    assert!(dialog.chosen().is_empty());
    assert!(!apply_sync(&mut state, &dialog));
    dialog.selected[1] = true;
    assert_eq!(dialog.chosen(), vec![3]);
    assert!(apply_sync(&mut state, &dialog));
    assert_eq!(state.graphs[1].sync_partner_ids, vec![3]);
    assert_eq!(state.graphs[2].sync_partner_ids, vec![2]);
    assert_eq!(state.graphs[1].sync_group_id, Some(2));
    assert!(state.graphs[0].sync_partner_ids.is_empty());
    // a synced graph leaves its group
    assert!(toggle_sync(&mut state, 3).is_none());
    assert!(state.graphs[1].sync_partner_ids.is_empty());
    assert!(state.graphs[2].sync_partner_ids.is_empty());
    assert!(toggle_sync(&mut state, 77).is_none());
}

#[test]
fn panel_heights_and_count_label() {
    assert_eq!(panel_height(900 * U, 0), 900 * U);
    assert_eq!(panel_height(900 * U, 1), 900 * U);
    assert_eq!(panel_height(900 * U, 2), 445 * U);
    assert_eq!(panel_height(500 * U, 5), 300 * U);
    assert_eq!(graph_count_label(1), "1 graph");
    assert_eq!(graph_count_label(0), "0 graphs");
    assert_eq!(graph_count_label(12), "12 graphs");
}

#[test]
fn screenshot_crop() {
    let rect = ScreenRect { left: 10_500_000, top: 20 * U, width: 100 * U, height: 50 * U };
    // one and a half pixels per point
    let r = crop_region(rect, 1_500_000, 1000, 100);
    assert_eq!(r, CropRegion { x0: 15, y0: 30, x1: 166, y1: 100 });
    let outside = ScreenRect { left: -50 * U, top: -5 * U, width: 10 * U, height: 10 * U };
    assert_eq!(crop_region(outside, U, 1000, 100), CropRegion { x0: 0, y0: 0, x1: 0, y1: 5 });

    let px = |v: u8| Rgba { r: v, g: v + 1, b: v + 2, a: 255 };
    let image: Vec<Rgba> = (0..12).map(|i| px(i * 10)).collect();
    // image of 4 by 3 pixels
    let bytes = crop_pixels(&image, 4, CropRegion { x0: 1, y0: 1, x1: 3, y1: 3 });
    assert_eq!(
        bytes,
        vec![50, 51, 52, 255, 60, 61, 62, 255, 90, 91, 92, 255, 100, 101, 102, 255]
    );
    assert!(crop_pixels(&image, 4, CropRegion { x0: 2, y0: 0, x1: 2, y1: 3 }).is_empty());
    assert!(crop_pixels(&image, 4, CropRegion { x0: 0, y0: 2, x1: 4, y1: 1 }).is_empty());
    assert_eq!(crop_pixels(&image, 4, CropRegion { x0: 0, y0: 0, x1: 4, y1: 3 }).len(), 48);
}

#[test]
fn export_as_separated_text() {
    let mut g = GraphState::new(1);
    assert_eq!(export_csv(&g), None);
    g.add_series(series(1, "a", "V", &[0, 1, 2], &[10, 20, 30]));
    g.add_series(series(2, "b", "V", &[0, 1], &[5, 6]));
    g.series[0].y[1] = NAN;
    g.series[1].y[0] = 5_250_000;
    assert_eq!(export_csv(&g).unwrap(), "X,a,b\n0,10,5.25\n1,,6\n2,30,\n");
    g.x_axis_name = Some("Time".to_string());
    g.x_axis_is_datetime = Some(true);
    g.series[0].x = vec![0, 1_500_000];
    assert_eq!(
        export_csv(&g).unwrap(),
        "Time,a,b\n1970-01-01 00:00:00,10,5.25\n1970-01-01 00:00:01.500,,6\n"
    );
}
