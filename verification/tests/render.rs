use oxideplot::plot3d::renderer::{
    composites, needs_recreate, plan_scene_draws, target_key, SceneDraw, TargetKey,
};
use oxideplot::plot3d::scene::{
    axis_name_position, build_3d_grid, build_positions, build_scene, build_tick_labels,
    compute_data_bounds_3d, label_visible, normalize_point, Axis, DataBounds, TickLabel,
    SERIES_LINE_WIDTH,
};
use oxideplot::render::gpu_plot::{
    build_draw_calls, expand_lines, expand_steps, plan_grid, plan_paint, plan_series, Draw,
    PipelineType, PixelRect,
};
use oxideplot::render::gpu_types::{
    DrawMode, GridGpuData, Line3DData, PlotUniforms, Point2, Rgba, Scatter3DData, ScenePoint,
    SeriesGpuData,
};
use oxideplot::render::plot_interaction::{ScreenPos, ScreenRect};
use oxideplot::state::data_series::{DataSeries, InterpolationMode};
use oxideplot::state::theme::Theme;

const U: i64 = 1_000_000;

fn p(x: i64, y: i64) -> Point2 {
    Point2 { x, y }
}

fn sp(x: i64, y: i64, z: i64) -> ScenePoint {
    ScenePoint { x, y, z }
}

fn base() -> PlotUniforms {
    PlotUniforms {
        view_min: p(0, 0),
        view_max: p(10, 10),
        resolution: p(800, 400),
        line_width: 2 * U,
        point_radius: 3 * U,
        color: Rgba { r: 255, g: 255, b: 255, a: 255 },
    }
}

fn red() -> Rgba {
    Rgba { r: 255, g: 0, b: 0, a: 255 }
}

fn data(points: Vec<Point2>, mode: DrawMode) -> SeriesGpuData {
    SeriesGpuData { points, color: red(), line_width: 5 * U, point_radius: 7 * U, draw_mode: mode }
}

#[test]
fn lines_expand_to_segment_end_points() {
    let pts = vec![p(0, 0), p(1, 5), p(2, 3)];
    assert_eq!(expand_lines(&pts), vec![p(0, 0), p(1, 5), p(1, 5), p(2, 3)]);
    assert_eq!(expand_lines(&vec![p(4, 4)]), Vec::new());
}

#[test]
fn steps_go_across_first() {
    let pts = vec![p(0, 0), p(1, 5), p(2, 3)];
    assert_eq!(
        expand_steps(&pts),
        vec![p(0, 0), p(1, 0), p(1, 0), p(1, 5), p(1, 5), p(2, 5), p(2, 5), p(2, 3)]
    );
}

#[test]
fn series_calls() {
    let line = plan_series(&data(vec![p(0, 0), p(1, 1), p(2, 0)], DrawMode::Lines), base()).unwrap();
    assert_eq!(line.pipeline_type, PipelineType::Line);
    assert_eq!(line.instance_count, 2);
    assert_eq!(line.vertices.len(), 4);
    assert_eq!(line.uniforms.color, red());
    assert_eq!(line.uniforms.line_width, 5 * U);
    assert_eq!(line.uniforms.point_radius, 3 * U);
    assert_eq!(line.uniforms.view_max, p(10, 10));

    let step = plan_series(&data(vec![p(0, 0), p(1, 1), p(2, 0)], DrawMode::Step), base()).unwrap();
    assert_eq!(step.pipeline_type, PipelineType::Line);
    assert_eq!(step.instance_count, 4);
    assert_eq!(step.vertices.len(), 8);

    let dots = plan_series(&data(vec![p(0, 0), p(1, 1), p(2, 0)], DrawMode::Points), base()).unwrap();
    assert_eq!(dots.pipeline_type, PipelineType::Point);
    assert_eq!(dots.instance_count, 3);
    assert_eq!(dots.vertices, vec![p(0, 0), p(1, 1), p(2, 0)]);
    assert_eq!(dots.uniforms.point_radius, 7 * U);
    assert_eq!(dots.uniforms.line_width, 2 * U);
}

#[test]
fn series_without_enough_points_give_no_call() {
    assert!(plan_series(&data(vec![], DrawMode::Lines), base()).is_none());
    assert!(plan_series(&data(vec![], DrawMode::Points), base()).is_none());
    assert!(plan_series(&data(vec![p(1, 1)], DrawMode::Lines), base()).is_none());
    assert!(plan_series(&data(vec![p(1, 1)], DrawMode::Step), base()).is_none());
    let one = plan_series(&data(vec![p(1, 1)], DrawMode::Points), base()).unwrap();
    assert_eq!(one.instance_count, 1);
}

#[test]
fn draw_calls_come_in_paint_order() {
    let grid = GridGpuData {
        segments: vec![p(0, 0), p(0, 10), p(5, 0), p(5, 10)],
        color: Rgba { r: 1, g: 2, b: 3, a: 4 },
        line_width: U,
    };
    let series = vec![
        data(vec![p(0, 0), p(1, 1)], DrawMode::Lines),
        data(vec![p(9, 9)], DrawMode::Step),
        data(vec![p(0, 0), p(1, 1)], DrawMode::Points),
    ];
    let calls = build_draw_calls(&series, &grid, base());
    assert_eq!(calls.len(), 3);
    assert_eq!(calls[0].pipeline_type, PipelineType::Line);
    assert_eq!(calls[0].instance_count, 2);
    assert_eq!(calls[0].uniforms.color, Rgba { r: 1, g: 2, b: 3, a: 4 });
    assert_eq!(calls[0].uniforms.line_width, U);
    assert_eq!(calls[0].vertices, grid.segments);
    assert_eq!(calls[1].instance_count, 1);
    assert_eq!(calls[2].pipeline_type, PipelineType::Point);

    let empty_grid = GridGpuData { segments: vec![p(0, 0)], color: red(), line_width: U };
    assert!(plan_grid(&empty_grid, base()).is_none());
    assert_eq!(build_draw_calls(&series, &empty_grid, base()).len(), 2);
    assert!(build_draw_calls(&[], &empty_grid, base()).is_empty());
}

#[test]
fn paint_plan() {
    let grid = GridGpuData { segments: vec![p(0, 0), p(0, 10)], color: red(), line_width: U };
    let series = vec![data(vec![p(0, 0), p(1, 1), p(2, 2)], DrawMode::Points)];
    let calls = build_draw_calls(&series, &grid, base());
    let viewport = PixelRect { left_px: 0, top_px: 0, width_px: 800, height_px: 400 };
    let clip = PixelRect { left_px: 5, top_px: 5, width_px: 100, height_px: 100 };
    let plan = plan_paint(&calls, viewport, clip).unwrap();
    assert!(plan.set_scissor);
    assert_eq!(
        plan.draws,
        vec![
            Draw { pipeline_type: PipelineType::Line, instance_count: 1 },
            Draw { pipeline_type: PipelineType::Point, instance_count: 3 },
        ]
    );
    let no_clip = PixelRect { left_px: 5, top_px: 5, width_px: 0, height_px: 100 };
    assert!(!plan_paint(&calls, viewport, no_clip).unwrap().set_scissor);
    let flat = PixelRect { left_px: 0, top_px: 0, width_px: 800, height_px: 0 };
    assert!(plan_paint(&calls, flat, clip).is_none());
    assert!(plan_paint(&Vec::new(), viewport, clip).is_none());
}

#[test]
fn offscreen_targets_are_kept_while_they_fit() {
    let wanted = target_key(640, 480, 7);
    assert_eq!(wanted, TargetKey { width: 640, height: 480, format: 7 });
    assert_eq!(target_key(0, 0, 7), TargetKey { width: 1, height: 1, format: 7 });
    assert!(needs_recreate(None, wanted));
    assert!(!needs_recreate(Some(wanted), wanted));
    assert!(needs_recreate(Some(TargetKey { width: 641, height: 480, format: 7 }), wanted));
    assert!(needs_recreate(Some(TargetKey { width: 640, height: 481, format: 7 }), wanted));
    assert!(needs_recreate(Some(TargetKey { width: 640, height: 480, format: 8 }), wanted));
}

#[test]
fn offscreen_pass_draws_lines_then_markers() {
    let lines = vec![
        Line3DData { segments: vec![sp(0, 0, 0), sp(1, 1, 1)], color: red(), line_width: U },
        Line3DData { segments: vec![sp(0, 0, 0)], color: red(), line_width: U },
        Line3DData { segments: vec![sp(0, 0, 0); 6], color: red(), line_width: U },
    ];
    let scatter = vec![
        Scatter3DData { positions: vec![], color: red(), point_size: U },
        Scatter3DData { positions: vec![sp(0, 0, 0); 5], color: red(), point_size: U },
    ];
    assert_eq!(
        plan_scene_draws(&lines, &scatter),
        vec![
            SceneDraw::Lines { index: 0, instances: 1 },
            SceneDraw::Lines { index: 2, instances: 3 },
            SceneDraw::Markers { index: 1, instances: 5 },
        ]
    );
    let viewport = PixelRect { left_px: 0, top_px: 0, width_px: 10, height_px: 10 };
    assert!(composites(true, viewport));
    assert!(!composites(false, viewport));
    assert!(!composites(true, PixelRect { left_px: 0, top_px: 0, width_px: 0, height_px: 10 }));
}

fn flat(id: u64, x: &[i64], y: &[i64]) -> DataSeries {
    DataSeries::new(
        id,
        format!("s{id}"),
        x.iter().map(|v| v * U).collect(),
        y.iter().map(|v| v * U).collect(),
        [10, 20, 30, 40],
        "V".to_string(),
    )
}

#[test]
fn scene_bounds() {
    let empty = compute_data_bounds_3d(&[]);
    assert_eq!(empty, DataBounds { min: sp(-U, -U, -U), max: sp(U, U, U) });
    let b = compute_data_bounds_3d(&[flat(1, &[0, 10], &[5, 5])]);
    assert_eq!(b.min, sp(0, -U, -U));
    assert_eq!(b.max, sp(10 * U, U, U));
    let upright = compute_data_bounds_3d(&[flat(4, &[2, 2], &[0, 4])]);
    assert_eq!(upright.min, sp(-U, 0, -U));
    assert_eq!(upright.max, sp(U, 4 * U, U));
    let mut hidden = flat(2, &[-100], &[-100]);
    hidden.visible = false;
    assert_eq!(compute_data_bounds_3d(&[hidden]), empty);
    let deep = DataSeries::new_3d(
        3,
        "d".to_string(),
        vec![0, 4 * U],
        vec![0, 2 * U],
        vec![-U, 3 * U],
        [1, 1, 1, 1],
        "m".to_string(),
    );
    let b3 = compute_data_bounds_3d(&[deep]);
    assert_eq!(b3, DataBounds { min: sp(0, 0, -U), max: sp(4 * U, 2 * U, 3 * U) });
}

#[test]
fn points_are_scaled_into_the_cube() {
    let b = DataBounds { min: sp(0, 0, -U), max: sp(4 * U, 2 * U, 3 * U) };
    assert_eq!(normalize_point(0, 0, -U, b), sp(-U, -U, -U));
    assert_eq!(normalize_point(4 * U, 2 * U, 3 * U, b), sp(U, U, U));
    assert_eq!(normalize_point(2 * U, U, U, b), sp(0, 0, 0));
    assert_eq!(normalize_point(U, 500_000, 0, b), sp(-500_000, -500_000, -500_000));
    assert_eq!(normalize_point(8 * U, 0, 0, b), sp(3 * U, -U, -500_000));
}

#[test]
fn wireframe_grid() {
    let g = build_3d_grid();
    assert_eq!(g.len(), 56);
    assert_eq!(g[0], sp(-U, -U, -U));
    assert_eq!(g[1], sp(U, -U, -U));
    assert_eq!(g[6], sp(-U, U, -U));
    assert_eq!(g[7], sp(-U, -U, -U));
    assert_eq!(g[14], sp(-U, U, U));
    assert_eq!(g[15], sp(-U, -U, U));
    assert_eq!(g[16], sp(-U, -U, -U));
    assert_eq!(g[17], sp(-U, -U, U));
    assert_eq!(g[22], sp(-U, U, -U));
    assert_eq!(g[23], sp(-U, U, U));
    // first tick at -0.6
    assert_eq!(g[24], sp(-600_000, -U, -U));
    assert_eq!(g[25], sp(-600_000, -U, U));
    assert_eq!(g[26], sp(-U, -U, -600_000));
    assert_eq!(g[27], sp(U, -U, -600_000));
    assert_eq!(g[28], sp(-600_000, -U, -U));
    assert_eq!(g[29], sp(-600_000, U, -U));
    assert_eq!(g[30], sp(-U, -600_000, -U));
    assert_eq!(g[31], sp(-U, -600_000, U));
    // last tick at 0.6
    assert_eq!(g[48], sp(600_000, -U, -U));
    assert_eq!(g[55], sp(-U, 600_000, U));
}

#[test]
fn scene_of_a_flat_and_a_deep_series() {
    let mut flat_series = flat(1, &[0, 10, 20], &[0, 5, 10]);
    flat_series.y[1] = i64::MIN;
    let mut deep = DataSeries::new_3d(
        2,
        "d".to_string(),
        vec![0, 20 * U],
        vec![0, 10 * U],
        vec![0, 4 * U],
        [1, 2, 3, 4],
        "m".to_string(),
    );
    deep.interpolation = InterpolationMode::Points;
    let scene = build_scene(&[flat_series, deep], Theme::Dark);
    assert_eq!(scene.bounds, DataBounds { min: sp(0, 0, 0), max: sp(20 * U, 10 * U, 4 * U) });
    assert_eq!(scene.background, Rgba { r: 20, g: 20, b: 20, a: 255 });
    assert_eq!(scene.scatter_data.len(), 2);
    assert_eq!(scene.scatter_data[0].positions, vec![sp(-U, -U, -U), sp(U, U, -U)]);
    assert_eq!(scene.scatter_data[0].point_size, 3 * U);
    assert_eq!(scene.scatter_data[0].color, Rgba { r: 10, g: 20, b: 30, a: 40 });
    assert_eq!(scene.scatter_data[1].positions, vec![sp(-U, -U, -U), sp(U, U, U)]);
    assert_eq!(scene.scatter_data[1].point_size, 4 * U);
    // the grid, then the lines of the flat series; the deep one is drawn as points
    assert_eq!(scene.line_data.len(), 2);
    assert_eq!(scene.line_data[0].segments, build_3d_grid());
    assert_eq!(scene.line_data[0].color, Rgba { r: 100, g: 100, b: 100, a: 30 });
    assert_eq!(scene.line_data[0].line_width, U);
    assert_eq!(scene.line_data[1].segments, vec![sp(-U, -U, -U), sp(U, U, -U)]);
    assert_eq!(scene.line_data[1].line_width, SERIES_LINE_WIDTH);
    assert_eq!(scene.line_data[1].line_width, 1_500_000);
}

#[test]
fn scene_skips_series_without_finite_points() {
    let broken = DataSeries::new(
        1,
        "b".to_string(),
        vec![i64::MIN, 5],
        vec![1, i64::MAX],
        [1, 1, 1, 1],
        "u".to_string(),
    );
    let b = compute_data_bounds_3d(&[flat(2, &[0, 1], &[0, 1])]);
    assert!(build_positions(&broken, b).is_empty());
    let scene = build_scene(&[broken], Theme::Light);
    assert!(scene.scatter_data.is_empty());
    assert_eq!(scene.line_data.len(), 1);
    assert_eq!(scene.line_data[0].color, Rgba { r: 180, g: 180, b: 180, a: 40 });
    assert_eq!(scene.background, Rgba { r: 255, g: 255, b: 255, a: 255 });
}

#[test]
fn tick_labels_of_a_scene() {
    let b = DataBounds { min: sp(0, -4 * U, 10 * U), max: sp(8 * U, 4 * U, 12 * U) };
    let labels = build_tick_labels(b);
    assert_eq!(labels.len(), 15);
    assert_eq!(
        labels[0],
        TickLabel { axis: Axis::X, anchor: sp(-U, -U, -1_200_000), value: 0 }
    );
    assert_eq!(
        labels[1],
        TickLabel { axis: Axis::Y, anchor: sp(-1_200_000, -U, -U), value: -4 * U }
    );
    assert_eq!(
        labels[2],
        TickLabel { axis: Axis::Z, anchor: sp(-1_200_000, -U, -U), value: 10 * U }
    );
    assert_eq!(
        labels[3],
        TickLabel { axis: Axis::X, anchor: sp(-500_000, -U, -1_200_000), value: 2 * U }
    );
    assert_eq!(
        labels[14],
        TickLabel { axis: Axis::Z, anchor: sp(-1_200_000, -U, U), value: 12 * U }
    );
}

#[test]
fn labels_behind_the_camera_or_outside_the_viewport_are_skipped() {
    let rect = ScreenRect { left: 10, top: 20, width: 100, height: 50 };
    assert!(label_visible(1, ScreenPos { x: 10, y: 20 }, rect));
    assert!(label_visible(1, ScreenPos { x: 110, y: 70 }, rect));
    assert!(!label_visible(0, ScreenPos { x: 50, y: 50 }, rect));
    assert!(!label_visible(-5, ScreenPos { x: 50, y: 50 }, rect));
    assert!(!label_visible(1, ScreenPos { x: 9, y: 50 }, rect));
    assert!(!label_visible(1, ScreenPos { x: 111, y: 50 }, rect));
    assert!(!label_visible(1, ScreenPos { x: 50, y: 19 }, rect));
    assert!(!label_visible(1, ScreenPos { x: 50, y: 71 }, rect));
}

#[test]
fn axis_names_sit_beside_the_middle_of_an_edge() {
    assert_eq!(axis_name_position(Axis::X), sp(0, -1_150_000, -1_150_000));
    assert_eq!(axis_name_position(Axis::Y), sp(-1_150_000, 0, -1_150_000));
    assert_eq!(axis_name_position(Axis::Z), sp(-1_150_000, -1_150_000, 0));
}

#[test]
fn polylines_without_points_have_no_segments() {
    assert_eq!(expand_lines(&Vec::new()), Vec::<Point2>::new());
    assert_eq!(expand_steps(&Vec::new()), Vec::<Point2>::new());
    let one = vec![Point2 { x: 3, y: 4 }];
    assert_eq!(expand_lines(&one), Vec::<Point2>::new());
    assert_eq!(expand_steps(&one), Vec::<Point2>::new());
}
