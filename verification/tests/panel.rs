use oxideplot::fixed::NAN;
use oxideplot::render::gpu_types::{DrawMode, Point2, Rgba};
use oxideplot::render::plot_interaction::{PlotViewState, ScreenPos, ScreenRect};
use oxideplot::state::data_series::{DataSeries, InterpolationMode};
use oxideplot::state::graph_state::{GraphState, SortDirection, TableSort};
use oxideplot::state::theme::Theme;
use oxideplot::ui::graph_panel::{
    build_grid_segments, build_plot_frame, build_series_data, build_series_points,
    collect_unit_order, compute_unit_ranges, find_hover_point, find_unit, get_table_value,
    plot_layout, prepare_view, table_row_count, table_row_order, unit_extent, GraphAction,
    HoverHit, UnitRange, POINT_BUDGET,
};
use oxideplot::ui::overlay::{
    cursor_delta, cursor_label, legend_layout, tick_label_column, tooltip_text,
    unit_axis_title, unit_cursor_label, unit_delta_label, visible_count, x_axis_title,
    x_delta_label, x_tick_labels, y_axis_title, y_delta_label, y_tick_labels,
};

const U: i64 = 1_000_000;

fn series(id: u64, unit: &str, x: &[i64], y: &[i64]) -> DataSeries {
    DataSeries::new(
        id,
        format!("s{id}"),
        x.iter().map(|v| v * U).collect(),
        y.iter().map(|v| v * U).collect(),
        [10, 20, 30, 40],
        unit.to_string(),
    )
}

fn graph(all: Vec<DataSeries>) -> GraphState {
    let mut g = GraphState::new(1);
    for s in all {
        g.add_series(s);
    }
    g
}

fn view(x_min: i64, x_max: i64, y_min: i64, y_max: i64) -> PlotViewState {
    let mut v = PlotViewState::new();
    v.x_min = x_min;
    v.x_max = x_max;
    v.y_min = y_min;
    v.y_max = y_max;
    v.initialized = true;
    v.auto_fit = false;
    v
}

fn rect() -> ScreenRect {
    ScreenRect { left: 100 * U, top: 50 * U, width: 800 * U, height: 400 * U }
}

#[test]
fn graph_actions_are_told_apart() {
    assert!(GraphAction::Idle != GraphAction::Close);
    assert_eq!(GraphAction::ExportCsv, GraphAction::ExportCsv);
}

#[test]
fn unit_range_scales_into_zero_to_one() {
    let r = UnitRange { y_min: 10 * U, y_max: 30 * U };
    assert_eq!(r.normalize(10 * U), 0);
    assert_eq!(r.normalize(30 * U), U);
    assert_eq!(r.normalize(15 * U), 250_000);
    assert_eq!(r.normalize(0), -500_000);
    assert_eq!(r.denormalize(0), 10 * U);
    assert_eq!(r.denormalize(U), 30 * U);
    assert_eq!(r.denormalize(250_000), 15 * U);
    assert_eq!(r.denormalize(-50_000), 9 * U);
    let flat = UnitRange { y_min: 5, y_max: 5 };
    assert_eq!(flat.normalize(99), 500_000);
    assert_eq!(flat.denormalize(700_000), 5);
    let none = UnitRange { y_min: NAN, y_max: NAN };
    assert_eq!(none.normalize(1), NAN);
    assert_eq!(none.denormalize(1), NAN);
    assert_eq!(r.normalize(NAN), NAN);
    let upside_down = UnitRange { y_min: 30 * U, y_max: 10 * U };
    assert_eq!(upside_down.normalize(25 * U), 250_000);
}

#[test]
fn units_in_order_of_appearance() {
    let mut hidden = series(3, "A", &[0], &[0]);
    hidden.visible = false;
    let g = graph(vec![
        series(1, "V", &[0], &[1]),
        series(2, "G", &[0], &[2]),
        hidden,
        series(4, "V", &[0], &[9]),
    ]);
    let units = collect_unit_order(&g);
    assert_eq!(units, vec!["V", "G"]);
    assert_eq!(find_unit(&units, "G"), Some(1));
    assert_eq!(find_unit(&units, "A"), None);
    let ranges = compute_unit_ranges(&g, &units);
    // V spans 1..9: margin 0.4; G has no span: margin 1
    assert_eq!(ranges, vec![
        UnitRange { y_min: 600_000, y_max: 9_400_000 },
        UnitRange { y_min: U, y_max: 3 * U },
    ]);
    assert_eq!(unit_extent(&g.series, "V"), (Some(U), Some(9 * U)));
    assert_eq!(unit_extent(&g.series, "A"), (None, None));
    let empty_unit = compute_unit_ranges(&g, &["A".to_string()]);
    assert_eq!(empty_unit, vec![UnitRange { y_min: NAN, y_max: NAN }]);
}

#[test]
fn view_at_the_start_of_a_frame() {
    let mut g = graph(vec![series(1, "V", &[0, 10], &[-5, 5])]);
    prepare_view(&mut g, false);
    assert_eq!((g.plot_view.x_min, g.plot_view.x_max), (-500_000, 10_500_000));
    assert_eq!((g.plot_view.y_min, g.plot_view.y_max), (-5_500_000, 5_500_000));
    assert!(g.plot_view.initialized && !g.plot_view.auto_fit);

    g.plot_view.set_x_range(-U, U);
    g.series[0].y = vec![-5 * U, 3 * U];
    prepare_view(&mut g, false);
    assert_eq!((g.plot_view.x_min, g.plot_view.x_max), (-U, U));
    assert_eq!((g.plot_view.y_min, g.plot_view.y_max), (-5_500_000, -4_500_000));

    prepare_view(&mut g, true);
    assert_eq!((g.plot_view.y_min, g.plot_view.y_max), (-50_000, 1_050_000));

    g.auto_scale_y = false;
    g.plot_view.y_min = 7;
    prepare_view(&mut g, false);
    assert_eq!(g.plot_view.y_min, 7);

    g.plot_view.auto_fit = true;
    prepare_view(&mut g, true);
    assert_eq!((g.plot_view.x_min, g.plot_view.x_max), (-500_000, 10_500_000));
    assert_eq!((g.plot_view.y_min, g.plot_view.y_max), (-50_000, 1_050_000));
    assert!(!g.plot_view.auto_fit);
}

#[test]
fn layout_of_a_chart() {
    let l = plot_layout(10 * U, 20 * U, 1000 * U, 500 * U, 1);
    assert_eq!(l.total, ScreenRect { left: 10 * U, top: 20 * U, width: 1000 * U, height: 500 * U });
    assert_eq!(l.plot, ScreenRect { left: 80 * U, top: 30 * U, width: 910 * U, height: 450 * U });
    let multi = plot_layout(10 * U, 20 * U, 1000 * U, 500 * U, 3);
    assert_eq!(multi.plot.width, (1000 - 70 - 210) * U);
    let low = plot_layout(0, 0, 1000 * U, 60 * U, 0);
    assert_eq!(low.plot.height, 100 * U);
    assert_eq!(low.total.height, 150 * U);
}

#[test]
fn points_are_offset_by_the_view_origin() {
    let mut s = series(1, "V", &[1_000_000_000, 1_000_000_001, 1_000_000_002], &[5, 6, 7]);
    s.y[1] = NAN;
    let v = view(1_000_000_000 * U, 1_000_000_010 * U, 4 * U, 8 * U);
    let pts = build_series_points(&s, &v, &Vec::new(), &Vec::new());
    assert_eq!(pts, vec![Point2 { x: 0, y: U }, Point2 { x: 2 * U, y: 3 * U }]);
}

#[test]
fn points_of_several_units_are_normalized() {
    let s = series(1, "G", &[0, 1], &[10, 20]);
    let v = view(0, 2 * U, 0, U);
    let units = vec!["V".to_string(), "G".to_string()];
    let ranges = vec![UnitRange { y_min: 0, y_max: U }, UnitRange { y_min: 0, y_max: 40 * U }];
    let pts = build_series_points(&s, &v, &units, &ranges);
    assert_eq!(pts, vec![Point2 { x: 0, y: 250_000 }, Point2 { x: U, y: 500_000 }]);
    let other = series(2, "A", &[0], &[10]);
    assert_eq!(build_series_points(&other, &v, &units, &ranges), vec![Point2 { x: 0, y: 10 * U }]);
}

#[test]
fn long_series_are_downsampled_to_the_budget() {
    let n: i64 = 25_000;
    let x: Vec<i64> = (0..n).collect();
    let y: Vec<i64> = (0..n).map(|i| (i * 37) % 101).collect();
    let s = DataSeries::new(1, "long".to_string(), x, y, [1, 1, 1, 1], "u".to_string());
    let all = view(-1, n, 0, 200);
    assert_eq!(build_series_points(&s, &all, &Vec::new(), &Vec::new()).len(), POINT_BUDGET);
    let part = view(100, 200, 0, 200);
    let pts = build_series_points(&s, &part, &Vec::new(), &Vec::new());
    assert_eq!(pts.len(), 103);
    assert_eq!(pts[0].x, -1);
    assert_eq!(pts[102].x, 101);
}

#[test]
fn series_data_with_marker_overlay() {
    let mut lines = series(1, "V", &[0, 1], &[0, 1]);
    lines.line_width = 3 * U;
    let mut steps = series(2, "V", &[0, 1], &[0, 1]);
    steps.interpolation = InterpolationMode::Step;
    steps.show_dots = false;
    let mut dots = series(3, "V", &[0, 1], &[0, 1]);
    dots.interpolation = InterpolationMode::Points;
    let mut hidden = series(4, "V", &[0, 1], &[0, 1]);
    hidden.visible = false;
    let empty = series(5, "V", &[], &[]);
    let v = view(0, U, 0, U);
    let data = build_series_data(&[lines, steps, dots, hidden, empty], &v, &Vec::new(), &Vec::new());
    assert_eq!(data.len(), 4);
    assert_eq!(data[0].draw_mode, DrawMode::Lines);
    assert_eq!(data[0].line_width, 3 * U);
    assert_eq!(data[0].point_radius, 4 * U);
    assert_eq!(data[0].color, Rgba { r: 10, g: 20, b: 30, a: 40 });
    assert_eq!(data[1].draw_mode, DrawMode::Points);
    assert_eq!(data[1].point_radius, 3_500_000);
    assert_eq!(data[1].points, data[0].points);
    assert_eq!(data[2].draw_mode, DrawMode::Step);
    assert_eq!(data[3].draw_mode, DrawMode::Points);
    assert_eq!(data[3].point_radius, 3 * U);
}

#[test]
fn grid_segments_of_major_lines() {
    let v = view(10 * U, 20 * U, -U, U);
    let x_grid = vec![(10 * U, true), (11 * U, false), (15 * U, true)];
    let y_grid = vec![(0, true), (500_000, false)];
    let p = |x: i64, y: i64| Point2 { x, y };
    assert_eq!(
        build_grid_segments(&x_grid, &y_grid, &v),
        vec![
            p(0, 0),
            p(0, 2 * U),
            p(5 * U, 0),
            p(5 * U, 2 * U),
            p(0, U),
            p(10 * U, U),
        ]
    );
}

#[test]
fn frame_of_a_chart() {
    let mut g = graph(vec![series(1, "V", &[0, 5, 10], &[0, 10, 0])]);
    g.plot_view = view(0, 10 * U, 0, 10 * U);
    let frame = build_plot_frame(&g, rect(), Theme::Dark);
    assert_eq!(frame.unit_order, vec!["V"]);
    assert_eq!(frame.unit_ranges, vec![UnitRange { y_min: -500_000, y_max: 10_500_000 }]);
    assert_eq!(frame.x_grid.len(), 26);
    assert_eq!(frame.y_grid.len(), 26);
    assert_eq!(frame.grid_data.segments.len(), 24);
    assert_eq!(frame.grid_data.color, Rgba { r: 100, g: 100, b: 100, a: 60 });
    assert_eq!(frame.grid_data.line_width, U);
    assert_eq!(frame.uniforms_base.view_min, Point2 { x: 0, y: 0 });
    assert_eq!(frame.uniforms_base.view_max, Point2 { x: 10 * U, y: 10 * U });
    assert_eq!(frame.uniforms_base.resolution, Point2 { x: 800 * U, y: 400 * U });
    assert_eq!(frame.uniforms_base.line_width, 2 * U);
    assert_eq!(frame.uniforms_base.point_radius, 3 * U);
    assert_eq!(frame.uniforms_base.color, Rgba { r: 255, g: 255, b: 255, a: 255 });
    assert_eq!(frame.series_data.len(), 2);
    assert_eq!(frame.series_data[0].points.len(), 3);
}

#[test]
fn table_values_and_order() {
    let mut g = graph(vec![
        series(1, "V", &[0, 1, 2, 3], &[30, 10, 30, 20]),
        series(2, "G", &[0, 1], &[7, 8]),
    ]);
    assert_eq!(table_row_count(&g), 4);
    assert_eq!(get_table_value(&g, 0, 2), 2 * U);
    assert_eq!(get_table_value(&g, 1, 1), 10 * U);
    assert_eq!(get_table_value(&g, 2, 1), 8 * U);
    assert_eq!(get_table_value(&g, 2, 3), NAN);
    assert_eq!(get_table_value(&g, 3, 0), NAN);
    assert_eq!(get_table_value(&g, 0, 9), NAN);
    assert_eq!(table_row_order(&g), vec![0, 1, 2, 3]);
    g.table_sort = Some(TableSort { column: 1, direction: SortDirection::Ascending });
    assert_eq!(table_row_order(&g), vec![1, 3, 0, 2]);
    g.table_sort = Some(TableSort { column: 1, direction: SortDirection::Descending });
    assert_eq!(table_row_order(&g), vec![0, 2, 3, 1]);
    g.table_sort = Some(TableSort { column: 2, direction: SortDirection::Ascending });
    assert_eq!(table_row_order(&g), vec![2, 3, 0, 1]);
    g.table_sort = Some(TableSort { column: 2, direction: SortDirection::Descending });
    assert_eq!(table_row_order(&g), vec![1, 0, 2, 3]);
    assert_eq!(table_row_count(&GraphState::new(9)), 0);
    assert_eq!(get_table_value(&GraphState::new(9), 0, 0), NAN);
}

#[test]
fn pointer_picks_the_closest_point() {
    let mut g = graph(vec![series(1, "V", &[0, 5, 10], &[0, 10, 0]), series(2, "V", &[5], &[0])]);
    g.series[1].y[0] = 9_960_000;
    g.plot_view = view(0, 10 * U, 0, 10 * U);
    let none: Vec<String> = Vec::new();
    let no_ranges: Vec<UnitRange> = Vec::new();
    let hit = find_hover_point(&g, 5 * U, 9_990_000, &none, &no_ranges);
    assert_eq!(
        hit,
        Some(HoverHit { series: 0, point: 1, x: 5 * U, y: 10 * U, plot_y: 10 * U })
    );
    let lower = find_hover_point(&g, 5 * U, 9_970_000, &none, &no_ranges).unwrap();
    assert_eq!((lower.series, lower.point, lower.y), (1, 0, 9_960_000));
    // at equal distance the first found stays
    let tie = find_hover_point(&g, 5 * U, 9_980_000, &none, &no_ranges).unwrap();
    assert_eq!((tie.series, tie.point), (0, 1));
    // more than about three hundredths of the view away: nothing
    assert_eq!(find_hover_point(&g, 5 * U, 5 * U, &none, &no_ranges), None);
    assert_eq!(find_hover_point(&g, 300_000, 0, &none, &no_ranges).map(|h| h.point), Some(0));
    assert_eq!(find_hover_point(&g, 320_000, 0, &none, &no_ranges), None);
}

#[test]
fn pointer_ignores_hidden_and_unlabelled_series() {
    let mut g = graph(vec![series(1, "V", &[5], &[5])]);
    g.plot_view = view(0, 10 * U, 0, 10 * U);
    let none: Vec<String> = Vec::new();
    let no_ranges: Vec<UnitRange> = Vec::new();
    assert!(find_hover_point(&g, 5 * U, 5 * U, &none, &no_ranges).is_some());
    g.series[0].label = String::new();
    assert_eq!(find_hover_point(&g, 5 * U, 5 * U, &none, &no_ranges), None);
    g.series[0].label = "named".to_string();
    g.series[0].visible = false;
    assert_eq!(find_hover_point(&g, 5 * U, 5 * U, &none, &no_ranges), None);
}

#[test]
fn pointer_on_a_chart_of_several_units() {
    let mut g = graph(vec![series(1, "V", &[5], &[20]), series(2, "G", &[5], &[300])]);
    g.plot_view = view(0, 10 * U, 0, U);
    let units = collect_unit_order(&g);
    let ranges = vec![UnitRange { y_min: 0, y_max: 40 * U }, UnitRange { y_min: 0, y_max: 400 * U }];
    let hit = find_hover_point(&g, 5 * U, 740_000, &units, &ranges).unwrap();
    assert_eq!(hit, HoverHit { series: 1, point: 0, x: 5 * U, y: 300 * U, plot_y: 750_000 });
    let hit = find_hover_point(&g, 5 * U, 510_000, &units, &ranges).unwrap();
    assert_eq!((hit.series, hit.y, hit.plot_y), (0, 20 * U, 500_000));
}

#[test]
fn pointer_on_a_long_sorted_series() {
    let n: i64 = 5_000;
    let x: Vec<i64> = (0..n).map(|i| i * U).collect();
    let y: Vec<i64> = (0..n).map(|i| (i % 10) * U).collect();
    let mut g = graph(vec![DataSeries::new(1, "l".to_string(), x, y, [1, 1, 1, 1], "u".to_string())]);
    g.plot_view = view(1000 * U, 1100 * U, 0, 10 * U);
    let none: Vec<String> = Vec::new();
    let no_ranges: Vec<UnitRange> = Vec::new();
    let hit = find_hover_point(&g, 1050 * U, 0, &none, &no_ranges).unwrap();
    assert_eq!((hit.point, hit.x, hit.y), (1050, 1050 * U, 0));
}

#[test]
fn axis_titles() {
    let mut g = GraphState::new(1);
    assert_eq!(x_axis_title(&g, false), "X Axis");
    assert_eq!(x_axis_title(&g, true), "Date and Time");
    g.x_axis_unit = Some("s".to_string());
    assert_eq!(x_axis_title(&g, false), "X Axis (s)");
    g.x_axis_name = Some("Depth".to_string());
    assert_eq!(x_axis_title(&g, false), "Depth (s)");
    g.x_axis_unit = None;
    assert_eq!(x_axis_title(&g, false), "Depth");
    assert_eq!(y_axis_title(&vec!["V".to_string(), "G".to_string()]), "Y Axis (V)");
    assert_eq!(y_axis_title(&Vec::new()), "Y Axis");
    assert_eq!(unit_axis_title("G"), "Y (G)");
}

#[test]
fn tick_labels_along_the_axes() {
    let v = view(0, 10 * U, 0, 4 * U);
    let lines = vec![(0, true), (U, false), (5 * U, true), (10 * U, true)];
    let labels = x_tick_labels(&lines, &v, rect(), false);
    assert_eq!(labels.len(), 3);
    assert_eq!(labels[0].pos, ScreenPos { x: 100 * U, y: 454 * U });
    assert_eq!(labels[0].text, "0");
    assert_eq!(labels[1].pos, ScreenPos { x: 500 * U, y: 454 * U });
    assert_eq!(labels[1].text, "5");
    assert_eq!(labels[2].pos.x, 900 * U);
    let dated = x_tick_labels(&vec![(0, true)], &v, rect(), true);
    assert_eq!(dated[0].text, "1970-01-01 00:00:00");
    let outside = x_tick_labels(&vec![(-U, true), (11 * U, true)], &v, rect(), false);
    assert!(outside.is_empty());

    let column = tick_label_column(rect(), 0);
    assert_eq!(column, 96 * U);
    assert_eq!(tick_label_column(rect(), 1), 904 * U);
    assert_eq!(tick_label_column(rect(), 3), 1044 * U);
    let y_lines = vec![(0, true), (U, true), (2 * U, false), (5 * U, true)];
    let y_labels = y_tick_labels(&y_lines, &v, rect(), None, column);
    assert_eq!(y_labels.len(), 2);
    assert_eq!(y_labels[0].pos, ScreenPos { x: 96 * U, y: 450 * U });
    assert_eq!(y_labels[0].text, "0");
    assert_eq!(y_labels[1].pos, ScreenPos { x: 96 * U, y: 350 * U });
    assert_eq!(y_labels[1].text, "1");
    let range = UnitRange { y_min: 100 * U, y_max: 300 * U };
    let unit_labels = y_tick_labels(&vec![(0, true), (500_000, true)], &v, rect(), Some(range), 7);
    assert_eq!(unit_labels[0].text, "100");
    assert_eq!(unit_labels[1].text, "200");
    assert_eq!(unit_labels[1].pos, ScreenPos { x: 7, y: 400 * U });
}

#[test]
fn legend() {
    let mut g = graph(vec![series(1, "V", &[0], &[0]), series(2, "V", &[0], &[0])]);
    g.series[1].visible = false;
    assert_eq!(visible_count(&g), 1);
    let l = legend_layout(&g, rect(), 60 * U).unwrap();
    assert_eq!(l.frame, ScreenRect { left: 804 * U, top: 54 * U, width: 92 * U, height: 24 * U });
    assert_eq!(l.swatch_x, 808 * U);
    assert_eq!(l.text_x, 824 * U);
    assert_eq!(l.first_y, 58 * U);
    assert_eq!(legend_layout(&GraphState::new(2), rect(), 60 * U), None);
}

#[test]
fn cursor_read_outs() {
    assert_eq!(cursor_delta(2 * U, 5 * U), 3 * U);
    assert_eq!(cursor_delta(5 * U, 2 * U), 3 * U);
    assert_eq!(cursor_delta(NAN, 2), NAN);
    assert_eq!(cursor_label("C1", 1_234_567, false), "C1: 1.2346");
    assert_eq!(cursor_label("C2", 1_500_000, true), "C2: 1970-01-01 00:00:01.500");
    assert_eq!(x_delta_label(0, 1_234_567, false), "dX: 1.2346");
    assert_eq!(x_delta_label(1_234_567, 0, true), "dX: 1.235s");
    assert_eq!(y_delta_label(-U, U), "dY: 2.0000");
    let units = vec!["V".to_string(), "G".to_string()];
    let ranges = vec![UnitRange { y_min: 0, y_max: 10 * U }, UnitRange { y_min: -U, y_max: U }];
    assert_eq!(
        unit_cursor_label("C1", 500_000, &units, &ranges),
        "C1: 5.0000 V  |  0.0000 G"
    );
    assert_eq!(unit_cursor_label("C2", 0, &Vec::new(), &Vec::new()), "C2: ");
    assert_eq!(unit_delta_label(250_000, 750_000, "V", ranges[0]), "dY (V): 5.0000");
}

#[test]
fn tooltip() {
    assert_eq!(tooltip_text("volts", 1_500_000, -2_000_000, false), "volts: X=1.500, Y=-2.000");
    assert_eq!(
        tooltip_text("volts", 1_577_836_800_000_000, 1, true),
        "volts: X=2020-01-01 00:00:00, Y=0.000"
    );
}
