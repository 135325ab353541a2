use oxideplot::render::extent::{padded, slice_extent, windowed_extent};
use oxideplot::render::grid::{compute_grid_lines, format_tick_value, steps_for};
use oxideplot::render::plot_interaction::{
    PlotInput, PlotViewState, ScreenPos, ScreenRect, NORMALIZED_Y_MAX, NORMALIZED_Y_MIN,
};
use oxideplot::state::data_series::DataSeries;

const U: i64 = 1_000_000;

fn series(id: u64, x: &[i64], y: &[i64]) -> DataSeries {
    DataSeries::new(
        id,
        format!("s{id}"),
        x.iter().map(|v| v * U).collect(),
        y.iter().map(|v| v * U).collect(),
        [255, 0, 0, 255],
        "V".to_string(),
    )
}

fn rect() -> ScreenRect {
    ScreenRect { left: 100 * U, top: 50 * U, width: 800 * U, height: 400 * U }
}

fn view(x_min: i64, x_max: i64, y_min: i64, y_max: i64) -> PlotViewState {
    let mut v = PlotViewState::new();
    v.x_min = x_min;
    v.x_max = x_max;
    v.y_min = y_min;
    v.y_max = y_max;
    v.initialized = true;
    v.auto_fit = false;
    v
}

#[test]
fn new_view_is_the_unit_window() {
    let v = PlotViewState::new();
    assert_eq!((v.x_min, v.x_max, v.y_min, v.y_max), (0, U, 0, U));
    assert!(v.auto_fit);
    assert!(!v.initialized);
    assert_eq!((v.prev_x_min, v.prev_x_max), (0, U));
    assert!(v.is_well_formed());
    assert_eq!(PlotViewState::default(), v);
}

#[test]
fn fit_to_data_pads_by_a_twentieth() {
    let mut v = PlotViewState::new();
    v.fit_to_data(&[series(1, &[0, 10], &[-5, 5])]);
    assert_eq!(v.x_min, -500_000);
    assert_eq!(v.x_max, 10_500_000);
    assert_eq!(v.y_min, -5_500_000);
    assert_eq!(v.y_max, 5_500_000);
    assert!(v.initialized);
}

#[test]
fn fit_to_data_without_span_pads_by_half_a_unit() {
    let mut v = PlotViewState::new();
    v.fit_to_data(&[series(1, &[3, 3], &[7, 7])]);
    assert_eq!((v.x_min, v.x_max), (2_500_000, 3_500_000));
    assert_eq!((v.y_min, v.y_max), (6_500_000, 7_500_000));
}

#[test]
fn fit_to_data_ignores_hidden_series_and_what_is_no_number() {
    let mut hidden = series(1, &[-100, 100], &[-100, 100]);
    hidden.visible = false;
    let mut shown = series(2, &[0, 20], &[0, 40]);
    shown.x.push(i64::MIN);
    shown.y.push(i64::MAX);
    let mut v = PlotViewState::new();
    v.fit_to_data(&[hidden, shown]);
    assert_eq!((v.x_min, v.x_max), (-1_000_000, 21_000_000));
    assert_eq!((v.y_min, v.y_max), (-2_000_000, 42_000_000));
}

#[test]
fn fit_to_data_without_data_changes_nothing() {
    let mut v = PlotViewState::new();
    let before = v;
    v.fit_to_data(&[]);
    assert_eq!(v, before);
    let mut hidden = series(1, &[1], &[1]);
    hidden.visible = false;
    v.fit_to_data(&[hidden]);
    assert_eq!(v, before);
}

#[test]
fn fit_to_data_at_the_limits_of_the_range() {
    let limit: i64 = 4_000_000_000_000_000_000;
    let s = DataSeries::new(
        1,
        "edge".to_string(),
        vec![-limit, limit],
        vec![limit, limit],
        [1, 2, 3, 4],
        "u".to_string(),
    );
    let mut v = PlotViewState::new();
    v.fit_to_data(&[s]);
    assert_eq!((v.x_min, v.x_max), (-limit, limit));
    assert_eq!((v.y_min, v.y_max), (limit - 500_000, limit));
    assert!(v.is_well_formed());
}

#[test]
fn fit_to_data_normalized_sets_the_unit_range() {
    let mut v = PlotViewState::new();
    v.fit_to_data_normalized(&[series(1, &[0, 10], &[-5, 5])]);
    assert_eq!((v.x_min, v.x_max), (-500_000, 10_500_000));
    assert_eq!((v.y_min, v.y_max), (NORMALIZED_Y_MIN, NORMALIZED_Y_MAX));
    assert_eq!((v.y_min, v.y_max), (-50_000, 1_050_000));
    assert!(v.initialized);
}

#[test]
fn auto_scale_y_uses_only_visible_points() {
    let mut v = view(2 * U, 6 * U, 0, U);
    v.auto_scale_y_to_visible(&[series(1, &[0, 2, 4, 6, 8], &[100, 10, 30, 20, -100])]);
    assert_eq!((v.x_min, v.x_max), (2 * U, 6 * U));
    assert_eq!((v.y_min, v.y_max), (9 * U, 31 * U));
    let before = v;
    v.auto_scale_y_to_visible(&[series(1, &[0, 8], &[1, 2])]);
    assert_eq!(v, before);
    v.auto_scale_y_normalized();
    assert_eq!((v.y_min, v.y_max), (-50_000, 1_050_000));
}

#[test]
fn x_range_change_detection_and_snapshot() {
    let mut v = PlotViewState::new();
    assert!(!v.x_range_changed());
    v.set_x_range(2 * U, 8 * U);
    assert!(v.x_range_changed());
    v.snapshot_x_range();
    assert!(!v.x_range_changed());
    assert_eq!((v.prev_x_min, v.prev_x_max), (2 * U, 8 * U));
    v.x_max += 1;
    assert!(v.x_range_changed());
}

#[test]
fn set_x_range_rejects_degenerate_windows() {
    let mut v = PlotViewState::new();
    v.set_x_range(5, 5);
    assert_eq!((v.x_min, v.x_max), (0, U));
    v.set_x_range(8, 2);
    assert_eq!((v.x_min, v.x_max), (0, U));
    v.set_x_range(0, i64::MAX);
    assert_eq!((v.x_min, v.x_max), (0, U));
    v.set_x_range(-3, 4);
    assert_eq!((v.x_min, v.x_max), (-3, 4));
}

#[test]
fn pan_moves_against_the_drag() {
    let mut v = view(0, 10 * U, 0, 4 * U);
    v.auto_fit = true;
    // 80 of 800 pixels to the right: a tenth of the window to the left
    // 100 of 400 pixels down: a quarter of the window up
    v.pan(80 * U, 100 * U, rect());
    assert_eq!((v.x_min, v.x_max), (-U, 9 * U));
    assert_eq!((v.y_min, v.y_max), (U, 5 * U));
    assert!(!v.auto_fit);
}

#[test]
fn pan_stays_inside_the_finite_range() {
    let limit: i64 = 4_000_000_000_000_000_000;
    let mut v = view(limit - 10, limit, 0, U);
    v.pan(-800 * U, 0, rect());
    assert_eq!((v.x_min, v.x_max), (limit - 10, limit));
}

#[test]
fn zoom_keeps_the_point_under_the_pointer() {
    let mut v = view(0, 10 * U, 0, 4 * U);
    let pos = ScreenPos { x: 300 * U, y: 150 * U };
    let (cx, cy) = v.screen_to_data(pos, rect());
    assert_eq!((cx, cy), (2_500_000, 3 * U));
    // scroll of -500 pixels: factor 1.5
    v.zoom(-500 * U, Some(pos), rect());
    assert_eq!((v.x_min, v.x_max), (-1_250_000, 13_750_000));
    assert_eq!((v.y_min, v.y_max), (-1_500_000, 4_500_000));
    assert_eq!(v.screen_to_data(pos, rect()), (cx, cy));
}

#[test]
fn zoom_factor_is_limited() {
    let pos = ScreenPos { x: 100 * U, y: 450 * U };
    let mut v = view(0, 8 * U, 0, 8 * U);
    v.zoom(100_000 * U, Some(pos), rect());
    assert_eq!((v.x_min, v.x_max), (0, 4 * U));
    assert_eq!((v.y_min, v.y_max), (0, 4 * U));
    v.zoom(-100_000 * U, Some(pos), rect());
    assert_eq!((v.x_min, v.x_max), (0, 8 * U));
}

#[test]
fn zoom_without_scroll_or_pointer() {
    let mut v = view(0, 8 * U, 0, 8 * U);
    v.auto_fit = true;
    let before = v;
    v.zoom(0, Some(ScreenPos { x: 0, y: 0 }), rect());
    assert_eq!(v, before);
    v.zoom(50 * U, None, rect());
    assert_eq!((v.x_min, v.x_max, v.y_min, v.y_max), (0, 8 * U, 0, 8 * U));
    assert!(!v.auto_fit);
}

#[test]
fn zoom_never_collapses_the_window() {
    let pos = ScreenPos { x: 100 * U, y: 450 * U };
    let mut v = view(0, 2, 0, 2);
    for _ in 0..10 {
        v.zoom(100_000 * U, Some(pos), rect());
        assert!(v.is_well_formed());
    }
    assert_eq!((v.x_min, v.x_max), (0, 1));
}

#[test]
fn handle_input_applies_drag_scroll_and_double_click() {
    let mut v = view(0, 10 * U, 0, 4 * U);
    let input = PlotInput {
        dragged: true,
        drag_dx: 80 * U,
        drag_dy: 0,
        scroll: 0,
        hover_pos: None,
        double_clicked: false,
    };
    v.handle_input(input, rect());
    assert_eq!((v.x_min, v.x_max), (-U, 9 * U));
    assert!(!v.auto_fit);
    let click = PlotInput {
        dragged: false,
        drag_dx: 0,
        drag_dy: 0,
        scroll: 0,
        hover_pos: None,
        double_clicked: true,
    };
    v.handle_input(click, rect());
    assert_eq!((v.x_min, v.x_max), (-U, 9 * U));
    assert!(v.auto_fit);
}

#[test]
fn screen_and_data_corners_correspond() {
    let v = view(-2 * U, 6 * U, 10 * U, 20 * U);
    let r = rect();
    assert_eq!(v.screen_to_data(ScreenPos { x: 100 * U, y: 450 * U }, r), (-2 * U, 10 * U));
    assert_eq!(v.screen_to_data(ScreenPos { x: 900 * U, y: 50 * U }, r), (6 * U, 20 * U));
    assert_eq!(v.data_to_screen(-2 * U, 10 * U, r), ScreenPos { x: 100 * U, y: 450 * U });
    assert_eq!(v.data_to_screen(6 * U, 20 * U, r), ScreenPos { x: 900 * U, y: 50 * U });
    assert_eq!(v.data_to_screen(2 * U, 15 * U, r), ScreenPos { x: 500 * U, y: 250 * U });
    assert_eq!(v.screen_to_data(ScreenPos { x: 500 * U, y: 250 * U }, r), (2 * U, 15 * U));
}

#[test]
fn extents_of_slices() {
    assert_eq!(slice_extent(&[]), (None, None));
    assert_eq!(slice_extent(&[i64::MIN, i64::MAX]), (None, None));
    assert_eq!(slice_extent(&[3, i64::MIN, -7, 12]), (Some(-7), Some(12)));
    assert_eq!(windowed_extent(&[0, 5, 10, 15], &[9, 1, 2, 8], 4, 11), (Some(1), Some(2)));
    assert_eq!(windowed_extent(&[0, 5], &[9, 1], 6, 11), (None, None));
    assert_eq!(padded(0, 40), (-2, 42));
    assert_eq!(padded(5, 5), (5 - 500_000, 5 + 500_000));
}

#[test]
fn grid_steps() {
    assert_eq!(steps_for(10_000_000), (2_000_000, 400_000));
    assert_eq!(steps_for(8_000_000), (1_000_000, 200_000));
    assert_eq!(steps_for(40_000_000), (5_000_000, 1_000_000));
    assert_eq!(steps_for(70_000_000), (10_000_000, 2_000_000));
    assert_eq!(steps_for(1), (1, 1));
    assert_eq!(steps_for(100), (20, 4));
}

#[test]
fn grid_lines_of_zero_to_ten() {
    let lines = compute_grid_lines(0, 10_000_000);
    assert_eq!(lines.len(), 26);
    assert_eq!(lines[0], (0, true));
    assert_eq!(lines[1], (400_000, false));
    assert_eq!(lines[5], (2_000_000, true));
    assert_eq!(lines[25], (10_000_000, true));
    let majors: Vec<i64> = lines.iter().filter(|l| l.1).map(|l| l.0).collect();
    assert_eq!(majors, vec![0, 2_000_000, 4_000_000, 6_000_000, 8_000_000, 10_000_000]);
}

#[test]
fn grid_lines_of_a_negative_window() {
    let lines = compute_grid_lines(-1_500_000, 1_500_000);
    // range 3: major 0.5, minor 0.1
    assert_eq!(lines.len(), 31);
    assert_eq!(lines[0], (-1_500_000, true));
    assert_eq!(lines[1], (-1_400_000, false));
    assert_eq!(lines[15], (0, true));
    assert_eq!(lines[30], (1_500_000, true));
}

#[test]
fn grid_lines_of_degenerate_windows() {
    assert!(compute_grid_lines(5, 5).is_empty());
    assert!(compute_grid_lines(6, 5).is_empty());
    assert!(compute_grid_lines(0, i64::MAX).is_empty());
    assert!(compute_grid_lines(i64::MIN, 0).is_empty());
}

#[test]
fn tick_labels() {
    assert_eq!(format_tick_value(0), "0");
    assert_eq!(format_tick_value(2_500_000), "2.5");
    assert_eq!(format_tick_value(-400_000), "-0.4");
    assert_eq!(format_tick_value(999_999_999_999), "999999.999999");
    assert_eq!(format_tick_value(1_000_000_000_000), "1.00e6");
    assert_eq!(format_tick_value(1_500_000_000_000), "1.50e6");
    assert_eq!(format_tick_value(-1_234_567_000_000), "-1.23e6");
    assert_eq!(format_tick_value(123), "1.23e-4");
    assert_eq!(format_tick_value(999), "9.99e-4");
    assert_eq!(format_tick_value(1000), "0.001");
    assert_eq!(format_tick_value(1), "1.00e-6");
    assert_eq!(format_tick_value(9_995_000_000_000), "1.00e7");
    assert_eq!(format_tick_value(i64::MIN), "NaN");
}

#[test]
fn narrow_spans_are_padded_by_their_twentieth_not_by_the_fallback() {
    assert_eq!(padded(0, 10), (0, 10));
    assert_eq!(padded(0, 19), (0, 19));
    assert_eq!(padded(0, 20), (-1, 21));
    assert_eq!(padded(-3, 37), (-5, 39));
    assert_eq!(padded(7, 7), (7 - 500_000, 7 + 500_000));
    let mut v = PlotViewState::new();
    let s = DataSeries::new(
        1,
        "s".to_string(),
        vec![0, 10],
        vec![100, 300],
        [1, 2, 3, 255],
        "V".to_string(),
    );
    v.fit_to_data(&[s]);
    assert_eq!((v.x_min, v.x_max), (0, 10));
    assert_eq!((v.y_min, v.y_max), (90, 310));
    assert!(v.is_well_formed());
}

#[test]
fn grid_steps_just_above_a_round_eighth() {
    assert_eq!(steps_for(80_000_000), (10_000_000, 2_000_000));
    assert_eq!(steps_for(80_000_003), (20_000_000, 4_000_000));
    assert_eq!(steps_for(160_000_000), (20_000_000, 4_000_000));
    assert_eq!(steps_for(160_000_001), (50_000_000, 10_000_000));
    assert_eq!(steps_for(400_000_000), (50_000_000, 10_000_000));
    assert_eq!(steps_for(400_000_001), (100_000_000, 20_000_000));
    assert_eq!(steps_for(8), (1, 1));
    assert_eq!(steps_for(9), (2, 1));
    assert_eq!(steps_for(17), (5, 1));
    assert_eq!(steps_for(41), (10, 2));
    assert_eq!(steps_for(79), (10, 2));
    assert_eq!(steps_for(80), (10, 2));
    assert_eq!(steps_for(81), (20, 4));
    assert_eq!(steps_for(87), (20, 4));
}

#[test]
fn grid_lines_of_a_window_just_above_a_round_eighth() {
    let lines = compute_grid_lines(0, 87);
    assert_eq!(lines.len(), 22);
    assert_eq!(lines[0], (0, true));
    assert_eq!(lines[1], (4, false));
    assert_eq!(lines[5], (20, true));
    assert_eq!(lines[21], (84, false));
    let wide = compute_grid_lines(0, 80_000_003);
    assert_eq!(wide.len(), 21);
    let majors: Vec<i64> = wide.iter().filter(|l| l.1).map(|l| l.0).collect();
    assert_eq!(majors, vec![0, 20_000_000, 40_000_000, 60_000_000, 80_000_000]);
}

#[test]
fn grids_have_at_most_forty_two_lines() {
    for range in [1i64, 7, 8, 9, 16, 17, 40, 41, 79, 80, 81, 87, 159, 161, 399, 401, 799, 801] {
        for scale in [1i64, 10, 1_000, 1_000_000, 1_000_000_000] {
            for min in [0i64, -3, 5, -1_000_003] {
                let lines = compute_grid_lines(min, min + range * scale);
                assert!(lines.len() <= 42);
                assert!(!lines.is_empty());
            }
        }
    }
}

#[test]
fn the_two_maps_are_inverse_up_to_rounding() {
    let v = view(-2 * U, 5 * U, 10 * U, 17 * U + 3);
    let r = rect();
    for k in 0..=160i64 {
        // pixels inside the rectangle, data and back
        let pos = ScreenPos { x: r.left + k * 5 * U + k % 7, y: r.top + k * 2 * U + k % 3 };
        let (x, y) = v.screen_to_data(pos, r);
        let back = v.data_to_screen(x, y, r);
        assert!(back.x <= pos.x && pos.x - back.x <= 116, "{k}");
        assert!(back.y >= pos.y && back.y - pos.y <= 59, "{k}");
        // data inside the window, pixels and back
        let dx = v.x_min + k * 43_750;
        let dy = v.y_min + k * 43_750;
        let p = v.data_to_screen(dx, dy, r);
        let (bx, by) = v.screen_to_data(p, r);
        assert!(bx <= dx && dx - bx <= 1, "{k}");
        assert!(by <= dy && dy - by <= 1, "{k}");
    }
}
