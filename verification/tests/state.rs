use oxideplot::plot3d::camera::OrbitalCamera;
use oxideplot::render::plot_interaction::PlotViewState;
use oxideplot::state::app_state::{
    contains_id, drop_target, group_id_for, remove_id, AppState,
};
use oxideplot::state::data_series::{
    color_for_index, next_series_id, DataSeries, InterpolationMode, PlotMode, DEFAULT_LINE_WIDTH,
};
use oxideplot::state::graph_state::{
    next_graph_id, AxisState, CursorMode, CursorState, GraphState, SortDirection, TableSort,
};
use oxideplot::state::theme::Theme;

const U: i64 = 1_000_000;

fn series(id: u64, unit: &str, x: &[i64], y: &[i64]) -> DataSeries {
    DataSeries::new(
        id,
        format!("s{id} ({unit})"),
        x.iter().map(|v| v * U).collect(),
        y.iter().map(|v| v * U).collect(),
        [0, 0, 0, 0],
        unit.to_string(),
    )
}

#[test]
fn theme_toggle_and_labels() {
    assert_eq!(Theme::Dark.toggle(), Theme::Light);
    assert_eq!(Theme::Light.toggle(), Theme::Dark);
    assert_eq!(Theme::Dark.toggle().toggle(), Theme::Dark);
    assert_eq!(Theme::Dark.label(), "Dark");
    assert_eq!(Theme::Light.label(), "Light");
    assert_eq!(Theme::default(), Theme::Dark);
    assert_eq!(Theme::Dark.plot_bg(), (20, 20, 20));
    assert_eq!(Theme::Light.plot_bg(), (255, 255, 255));
    assert_eq!(Theme::Dark.grid_color(), (100, 100, 100, 60));
    assert_eq!(Theme::Light.grid_color(), (180, 180, 180, 80));
}

#[test]
fn palette_repeats_after_twelve() {
    assert_eq!(color_for_index(0), [255, 0, 0, 255]);
    assert_eq!(color_for_index(1), [0, 255, 0, 255]);
    assert_eq!(color_for_index(2), [0, 0, 255, 255]);
    assert_eq!(color_for_index(3), [255, 255, 0, 255]);
    assert_eq!(color_for_index(4), [255, 0, 255, 255]);
    assert_eq!(color_for_index(5), [0, 255, 255, 255]);
    assert_eq!(color_for_index(6), [255, 165, 0, 255]);
    assert_eq!(color_for_index(7), [128, 0, 128, 255]);
    assert_eq!(color_for_index(8), [0, 128, 0, 255]);
    assert_eq!(color_for_index(9), [0, 0, 128, 255]);
    assert_eq!(color_for_index(10), [255, 192, 203, 255]);
    assert_eq!(color_for_index(11), [165, 42, 42, 255]);
    assert_eq!(color_for_index(12), [255, 0, 0, 255]);
    assert_eq!(color_for_index(25), [0, 255, 0, 255]);
}

#[test]
fn interpolation_and_plot_mode() {
    assert_eq!(InterpolationMode::Linear.label(), "Linear");
    assert_eq!(InterpolationMode::Step.label(), "Step");
    assert_eq!(InterpolationMode::Points.label(), "Points Only");
    assert_eq!(InterpolationMode::default(), InterpolationMode::Linear);
    assert_eq!(PlotMode::default(), PlotMode::Plot2D);
}

#[test]
fn identifiers_count_up_and_wrap() {
    let mut counter: u64 = 1;
    assert_eq!(next_series_id(&mut counter), 1);
    assert_eq!(next_series_id(&mut counter), 2);
    assert_eq!(counter, 3);
    let mut last: u64 = u64::MAX;
    assert_eq!(next_graph_id(&mut last), u64::MAX);
    assert_eq!(last, 0);
    assert_eq!(next_graph_id(&mut last), 0);
    assert_eq!(last, 1);
}

#[test]
fn new_series_defaults() {
    let s = DataSeries::new(7, "a".to_string(), vec![1], vec![2], [1, 2, 3, 4], "V".to_string());
    assert_eq!(s.id, 7);
    assert_eq!(s.label, "a");
    assert_eq!((s.x.clone(), s.y.clone()), (vec![1], vec![2]));
    assert!(s.z.is_empty());
    assert!(!s.has_z());
    assert_eq!(s.color, [1, 2, 3, 4]);
    assert_eq!(s.color32(), (1, 2, 3, 4));
    assert_eq!(s.unit, "V");
    assert_eq!(s.interpolation, InterpolationMode::Linear);
    assert!(s.show_dots && s.visible && s.needs_resample);
    assert_eq!(s.line_width, DEFAULT_LINE_WIDTH);
    assert_eq!(s.line_width, 2_000_000);
    assert!(s.downsampled_x.is_empty() && s.downsampled_y.is_empty());
    assert_eq!(s.point_count(), 1);
    let t = DataSeries::new_3d(
        8,
        "b".to_string(),
        vec![1, 2],
        vec![3, 4],
        vec![5, 6],
        [9, 9, 9, 9],
        "G".to_string(),
    );
    assert!(t.has_z());
    assert_eq!(t.z, vec![5, 6]);
    assert_eq!(t.point_count(), 2);
}

#[test]
fn new_graph_defaults() {
    let g = GraphState::new(5);
    assert_eq!(g.id, 5);
    assert_eq!(g.title, "Title");
    assert!(g.series.is_empty());
    assert_eq!(g.series_counter, 0);
    assert!(g.x_axis_is_datetime.is_none() && g.x_axis_name.is_none() && g.x_axis_unit.is_none());
    assert!(g.auto_scale_y);
    assert!(g.y_axes.is_empty() && g.sync_partner_ids.is_empty());
    assert!(g.sync_group_id.is_none());
    assert!(!g.show_data_table && !g.is_updating_range);
    assert_eq!(g.plot_mode, PlotMode::Plot2D);
    assert!(g.table_sort.is_none());
    assert_eq!(g.plot_view, PlotViewState::new());
    assert_eq!(g.camera, OrbitalCamera::default());
    assert_eq!(g.cursor_state, CursorState::default());
    assert!(g.remove_series_selected.is_empty() && g.last_frame_rect.is_none());
    let a = AxisState::default();
    assert_eq!((a.label.as_str(), a.auto_range, a.min, a.max), ("", true, 0, U));
}

#[test]
fn add_series_assigns_colour_and_axis() {
    let mut g = GraphState::new(1);
    g.add_series(series(1, "V", &[0], &[0]));
    g.add_series(series(2, "G", &[0], &[0]));
    let mut own = series(3, "V", &[0], &[0]);
    own.color = [9, 8, 7, 6];
    g.add_series(own);
    assert_eq!(g.series.len(), 3);
    assert_eq!(g.series_counter, 3);
    assert_eq!(g.series[0].color, [255, 0, 0, 255]);
    assert_eq!(g.series[1].color, [0, 255, 0, 255]);
    assert_eq!(g.series[2].color, [9, 8, 7, 6]);
    assert_eq!(g.y_axes.len(), 2);
    assert_eq!(g.y_axes[0].unit, "V");
    assert_eq!(g.y_axes[0].axis.label, "Y Axis (V)");
    assert!(g.y_axes[0].axis.auto_range);
    assert_eq!((g.y_axes[0].axis.min, g.y_axes[0].axis.max), (0, U));
    assert_eq!(g.y_axes[1].unit, "G");
    assert_eq!(g.y_axes[1].axis.label, "Y Axis (G)");
    assert_eq!(g.series_labels(), vec!["s1 (V)", "s2 (G)", "s3 (V)"]);
    assert_eq!(g.find_axis("G"), Some(1));
    assert_eq!(g.find_axis("g"), None);
    assert_eq!(g.find_series(2), Some(1));
    assert_eq!(g.find_series(9), None);
    assert!(g.uses_unit("V") && !g.uses_unit("A"));
}

#[test]
fn series_counter_stops_at_its_largest_value() {
    let mut g = GraphState::new(1);
    g.series_counter = usize::MAX;
    g.add_series(series(1, "V", &[0], &[0]));
    assert_eq!(g.series_counter, usize::MAX);
    assert_eq!(g.series[0].color, color_for_index(usize::MAX));
}

#[test]
fn remove_series_drops_the_axis_of_an_unused_unit() {
    let mut g = GraphState::new(1);
    g.add_series(series(1, "V", &[0], &[0]));
    g.add_series(series(2, "G", &[0], &[0]));
    g.add_series(series(3, "V", &[0], &[0]));
    g.remove_series_by_id(1);
    assert_eq!(g.series.iter().map(|s| s.id).collect::<Vec<u64>>(), vec![2, 3]);
    assert_eq!(g.y_axes.len(), 2);
    g.remove_series_by_id(2);
    assert_eq!(g.series.iter().map(|s| s.id).collect::<Vec<u64>>(), vec![3]);
    assert_eq!(g.y_axes.len(), 1);
    assert_eq!(g.y_axes[0].unit, "V");
    g.remove_series_by_id(99);
    assert_eq!(g.series.len(), 1);
    assert_eq!(g.series_counter, 3);
    g.remove_series_by_id(3);
    assert!(g.series.is_empty() && g.y_axes.is_empty());
}

#[test]
fn graph_ranges() {
    let mut g = GraphState::new(1);
    assert_eq!(g.x_range(), None);
    g.add_series(series(1, "V", &[0, 5, 10], &[1, 9, 4]));
    g.add_series(series(2, "G", &[-3, 20], &[100, 200]));
    let mut hidden = series(3, "V", &[-50, 50], &[-500, 500]);
    hidden.visible = false;
    g.add_series(hidden);
    assert_eq!(g.x_range(), Some((-3 * U, 20 * U)));
    // V within 4..=10: values 9 and 4, widened by a twentieth of 5
    assert_eq!(g.y_range_for_unit("V", 4 * U, 10 * U), Some((3_750_000, 9_250_000)));
    assert_eq!(g.y_range_for_unit("G", -5 * U, 0), Some((100 * U, 100 * U)));
    assert_eq!(g.y_range_for_unit("A", 0, 10 * U), None);
    assert_eq!(g.y_range_for_unit("V", 11 * U, 12 * U), None);
}

#[test]
fn table_sort_cycles() {
    let mut g = GraphState::new(1);
    g.cycle_sort(2);
    assert_eq!(g.table_sort, Some(TableSort { column: 2, direction: SortDirection::Ascending }));
    g.cycle_sort(2);
    assert_eq!(g.table_sort, Some(TableSort { column: 2, direction: SortDirection::Descending }));
    g.cycle_sort(2);
    assert_eq!(g.table_sort, None);
    g.cycle_sort(1);
    g.cycle_sort(0);
    assert_eq!(g.table_sort, Some(TableSort { column: 0, direction: SortDirection::Ascending }));
}

#[test]
fn cursors_are_placed_in_turn() {
    let mut c = CursorState::default();
    c.place(1, 2);
    assert_eq!(c, CursorState::default());
    c.mode = CursorMode::Vertical;
    c.place(1, 2);
    assert_eq!((c.cursor1, c.cursor2), (Some(1), None));
    c.place(3, 4);
    assert_eq!((c.cursor1, c.cursor2), (Some(1), Some(3)));
    c.place(5, 6);
    assert_eq!((c.cursor1, c.cursor2), (Some(5), None));
    c.mode = CursorMode::Horizontal;
    c.place(7, 8);
    assert_eq!((c.cursor1, c.cursor2), (Some(5), Some(8)));
}

#[test]
fn app_state_starts_with_one_graph() {
    let s = AppState::new();
    assert_eq!(s.graphs.len(), 1);
    assert_eq!(s.graphs[0].id, 1);
    assert_eq!(s.theme, Theme::Dark);
    assert_eq!((s.graph_ids, s.series_ids), (2, 1));
    let d = AppState::default();
    assert_eq!(d.graphs.len(), 1);
}

#[test]
fn graphs_are_added_and_found() {
    let mut s = AppState::new();
    {
        let g = s.add_graph();
        assert_eq!(g.id, 2);
        g.title = "second".to_string();
    }
    assert_eq!(s.add_graph().id, 3);
    assert_eq!(s.graphs.len(), 3);
    assert_eq!(s.graph_ids, 4);
    assert_eq!(s.graph_index(2), Some(1));
    assert_eq!(s.graph_index(9), None);
    assert_eq!(s.graph_by_id(2).unwrap().title, "second");
    assert!(s.graph_by_id(9).is_none());
    s.graph_by_id_mut(3).unwrap().title = "third".to_string();
    assert_eq!(s.graphs[2].title, "third");
    assert!(s.graph_by_id_mut(0).is_none());
}

#[test]
fn id_list_helpers() {
    assert_eq!(remove_id(&vec![1, 2, 1, 3], 1), vec![2, 3]);
    assert_eq!(remove_id(&vec![1, 2], 5), vec![1, 2]);
    assert!(contains_id(&vec![4, 5], 5));
    assert!(!contains_id(&vec![4, 5], 6));
    assert_eq!(group_id_for(5, &vec![]), None);
    assert_eq!(group_id_for(5, &vec![7, 9]), Some(5));
    assert_eq!(group_id_for(5, &vec![7, 2, 9]), Some(2));
}

fn three_linked() -> AppState {
    let mut s = AppState::new();
    s.add_graph();
    s.add_graph();
    s.link_graphs(1, &vec![2, 3]);
    s
}

#[test]
fn linking_makes_every_member_a_partner_of_every_other() {
    let s = three_linked();
    assert_eq!(s.graphs[0].sync_partner_ids, vec![2, 3]);
    assert_eq!(s.graphs[1].sync_partner_ids, vec![1, 3]);
    assert_eq!(s.graphs[2].sync_partner_ids, vec![1, 2]);
    for g in &s.graphs {
        assert_eq!(g.sync_group_id, Some(1));
    }
}

#[test]
fn linking_twice_adds_nothing() {
    let mut s = three_linked();
    s.link_graphs(2, &vec![1, 2, 1, 9]);
    assert_eq!(s.graphs[0].sync_partner_ids, vec![2, 3, 9]);
    assert_eq!(s.graphs[1].sync_partner_ids, vec![1, 3, 9]);
    assert_eq!(s.graphs[2].sync_partner_ids, vec![1, 2]);
}

#[test]
fn sync_pass_copies_a_changed_window_to_all_partners() {
    let mut s = three_linked();
    s.propagate_sync();
    s.graphs[0].plot_view.set_x_range(2 * U, 8 * U);
    s.propagate_sync();
    for g in &s.graphs {
        assert_eq!((g.plot_view.x_min, g.plot_view.x_max), (2 * U, 8 * U));
        assert!(!g.plot_view.x_range_changed());
    }
    // nothing echoes in the next frame
    let before: Vec<PlotViewState> = s.graphs.iter().map(|g| g.plot_view).collect();
    s.propagate_sync();
    let after: Vec<PlotViewState> = s.graphs.iter().map(|g| g.plot_view).collect();
    assert_eq!(before, after);
}

#[test]
fn sync_pass_last_changed_graph_wins() {
    let mut s = three_linked();
    s.propagate_sync();
    s.graphs[0].plot_view.set_x_range(2 * U, 8 * U);
    s.graphs[2].plot_view.set_x_range(-4 * U, 4 * U);
    s.propagate_sync();
    // graph 3 is the last that changed: 1 and 2 follow it, 3 follows 1
    assert_eq!((s.graphs[0].plot_view.x_min, s.graphs[0].plot_view.x_max), (-4 * U, 4 * U));
    assert_eq!((s.graphs[1].plot_view.x_min, s.graphs[1].plot_view.x_max), (-4 * U, 4 * U));
    assert_eq!((s.graphs[2].plot_view.x_min, s.graphs[2].plot_view.x_max), (2 * U, 8 * U));
}

#[test]
fn sync_pass_leaves_unlinked_graphs_alone() {
    let mut s = AppState::new();
    s.add_graph();
    s.graphs[0].plot_view.set_x_range(2 * U, 8 * U);
    s.propagate_sync();
    assert_eq!((s.graphs[1].plot_view.x_min, s.graphs[1].plot_view.x_max), (0, U));
    assert!(!s.graphs[0].plot_view.x_range_changed());
    assert_eq!(s.find_sync_source(1), None);
}

#[test]
fn unlinking_a_graph() {
    let mut s = three_linked();
    assert!(s.unlink_graph(2));
    assert!(s.graphs[1].sync_partner_ids.is_empty());
    assert_eq!(s.graphs[1].sync_group_id, None);
    assert_eq!(s.graphs[0].sync_partner_ids, vec![3]);
    assert_eq!(s.graphs[2].sync_partner_ids, vec![1]);
    assert_eq!(s.graphs[0].sync_group_id, Some(1));
    assert_eq!(s.graphs[2].sync_group_id, Some(1));
    assert!(!s.unlink_graph(2));
    assert!(!s.unlink_graph(77));
}

#[test]
fn removing_a_graph_removes_it_from_partner_lists() {
    let mut s = three_linked();
    s.remove_graph(1);
    assert_eq!(s.graphs.iter().map(|g| g.id).collect::<Vec<u64>>(), vec![2, 3]);
    assert_eq!(s.graphs[0].sync_partner_ids, vec![3]);
    assert_eq!(s.graphs[1].sync_partner_ids, vec![2]);
    assert_eq!(s.graphs[0].sync_group_id, Some(2));
    assert_eq!(s.graphs[1].sync_group_id, Some(2));
    s.remove_graph(3);
    assert_eq!(s.graphs.len(), 1);
    assert!(s.graphs[0].sync_partner_ids.is_empty());
    assert_eq!(s.graphs[0].sync_group_id, None);
    s.remove_graph(42);
    assert_eq!(s.graphs.len(), 1);
}

#[test]
fn recompute_sync_groups_takes_the_smallest_identifier() {
    let mut s = AppState::new();
    s.add_graph();
    s.graphs[0].sync_partner_ids = vec![9, 4];
    s.graphs[1].sync_partner_ids = vec![];
    s.graphs[1].sync_group_id = Some(3);
    s.recompute_sync_groups();
    assert_eq!(s.graphs[0].sync_group_id, Some(1));
    assert_eq!(s.graphs[1].sync_group_id, None);
    s.graphs[1].sync_partner_ids = vec![0, 7];
    s.recompute_sync_groups();
    assert_eq!(s.graphs[1].sync_group_id, Some(0));
}

#[test]
fn reordering_graphs() {
    let mut s = AppState::new();
    s.add_graph();
    s.add_graph();
    s.add_graph();
    let ids = |s: &AppState| s.graphs.iter().map(|g| g.id).collect::<Vec<u64>>();
    s.reorder_graph(0, 3);
    assert_eq!(ids(&s), vec![2, 3, 1, 4]);
    s.reorder_graph(3, 0);
    assert_eq!(ids(&s), vec![4, 2, 3, 1]);
    s.reorder_graph(1, 100);
    assert_eq!(ids(&s), vec![4, 3, 1, 2]);
    s.reorder_graph(9, 0);
    assert_eq!(ids(&s), vec![4, 3, 1, 2]);
    assert_eq!(drop_target(true, 2, 0), Some(2));
    assert_eq!(drop_target(false, 2, 0), Some(3));
    assert_eq!(drop_target(true, 2, 2), None);
    assert_eq!(drop_target(true, 2, 1), None);
    assert_eq!(drop_target(false, 2, 3), None);
    assert_eq!(drop_target(false, 2, 2), None);
}
