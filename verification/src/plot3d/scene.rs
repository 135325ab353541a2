//! The scene of a plot in space: all series are scaled into the cube
//! `-1 ..= 1` along each axis, which also holds a wireframe grid.

use vstd::prelude::*;
use crate::fixed::{clamp_finite, clamp_wide, div_floor, finite, is_finite, COORD_MAX, SCALE};
use crate::render::extent::{finite_high, finite_low, higher, lower, merge_high, merge_low,
    slice_extent, lemma_low_le_high, lemma_finite_low, lemma_finite_high};
use crate::render::gpu_types::{Line3DData, Rgba, Scatter3DData, ScenePoint};
use crate::render::plot_interaction::{ScreenPos, ScreenRect};
use crate::state::data_series::{DataSeries, InterpolationMode};
use crate::state::theme::{grid_rgba, plot_bg_rgb, Theme};

verus! {

/// An axis of space.
#[derive(Debug, Clone, Copy, PartialEq, Eq, Structural)]
pub enum Axis {
    X,
    Y,
    Z,
}

/// The bounding box of the data of a scene.
#[derive(Debug, Clone, Copy, PartialEq, Eq, Structural)]
pub struct DataBounds {
    pub min: ScenePoint,
    pub max: ScenePoint,
}

/// The coordinates of a series along an axis.
pub open spec fn axis_values(s: DataSeries, axis: Axis) -> Seq<i64> {
    match axis {
        Axis::X => s.x@,
        Axis::Y => s.y@,
        Axis::Z => s.z@,
    }
}

/// The smallest finite coordinate of the shown series along an axis.
pub open spec fn axis_low(series: Seq<DataSeries>, axis: Axis) -> Option<i64>
    decreases series.len(),
{
    if series.len() == 0 {
        None
    } else if series.last().visible {
        merge_low(axis_low(series.drop_last(), axis), finite_low(axis_values(series.last(), axis)))
    } else {
        axis_low(series.drop_last(), axis)
    }
}

/// The largest finite coordinate of the shown series along an axis.
pub open spec fn axis_high(series: Seq<DataSeries>, axis: Axis) -> Option<i64>
    decreases series.len(),
{
    if series.len() == 0 {
        None
    } else if series.last().visible {
        merge_high(axis_high(series.drop_last(), axis), finite_high(axis_values(series.last(), axis)))
    } else {
        axis_high(series.drop_last(), axis)
    }
}

/// The bounds of an axis: those of the data; `-1 ..= 1` without data and
/// for data without span.
pub open spec fn axis_bounds(low: Option<i64>, high: Option<i64>) -> (int, int) {
    match (low, high) {
        (Some(lo), Some(hi)) => if hi - lo == 0 {
            (-SCALE as int, SCALE as int)
        } else {
            (lo as int, hi as int)
        },
        _ => (-SCALE as int, SCALE as int),
    }
}

/// The bounding box of the shown series of a scene.
pub open spec fn scene_bounds(series: Seq<DataSeries>) -> DataBounds {
    let bx = axis_bounds(axis_low(series, Axis::X), axis_high(series, Axis::X));
    let by = axis_bounds(axis_low(series, Axis::Y), axis_high(series, Axis::Y));
    let bz = axis_bounds(axis_low(series, Axis::Z), axis_high(series, Axis::Z));
    DataBounds {
        min: ScenePoint { x: bx.0 as i64, y: by.0 as i64, z: bz.0 as i64 },
        max: ScenePoint { x: bx.1 as i64, y: by.1 as i64, z: bz.1 as i64 },
    }
}

/// Whether the box has a positive extent along each axis and lies within
/// one unit of the finite values.
pub open spec fn bounds_valid(b: DataBounds) -> bool {
    &&& -COORD_MAX - SCALE <= b.min.x < b.max.x <= COORD_MAX + SCALE
    &&& -COORD_MAX - SCALE <= b.min.y < b.max.y <= COORD_MAX + SCALE
    &&& -COORD_MAX - SCALE <= b.min.z < b.max.z <= COORD_MAX + SCALE
}

/// A coordinate scaled from `lo ..= hi` into `-1 ..= 1`.
pub open spec fn normalized_coord(v: int, lo: int, hi: int) -> int {
    clamp_finite(((v - lo) * (2 * SCALE)) / (hi - lo) - SCALE)
}

/// A data point scaled into the cube.
pub open spec fn normalized_point(x: int, y: int, z: int, b: DataBounds) -> ScenePoint {
    ScenePoint {
        x: normalized_coord(x, b.min.x as int, b.max.x as int) as i64,
        y: normalized_coord(y, b.min.y as int, b.max.y as int) as i64,
        z: normalized_coord(z, b.min.z as int, b.max.z as int) as i64,
    }
}

/// The third coordinate of point `k` of a series: zero for a flat series.
pub open spec fn depth_at(s: DataSeries, k: int) -> i64 {
    if s.z@.len() > 0 {
        s.z@[k]
    } else {
        0
    }
}

/// How many points of a series the scene considers.
pub open spec fn scene_len(s: DataSeries) -> int {
    let n = if s.x@.len() <= s.y@.len() {
        s.x@.len() as int
    } else {
        s.y@.len() as int
    };
    if s.z@.len() > 0 && s.z@.len() < n {
        s.z@.len() as int
    } else {
        n
    }
}

/// The positions in the cube of those of the first `upto` points of a
/// series whose coordinates are all finite.
pub open spec fn scene_positions(s: DataSeries, b: DataBounds, upto: int) -> Seq<ScenePoint>
    decreases upto,
{
    if upto <= 0 {
        Seq::empty()
    } else {
        let rest = scene_positions(s, b, upto - 1);
        let k = upto - 1;
        if finite(s.x@[k] as int) && finite(s.y@[k] as int) && finite(depth_at(s, k) as int) {
            rest.push(normalized_point(s.x@[k] as int, s.y@[k] as int, depth_at(s, k) as int, b))
        } else {
            rest
        }
    }
}

/// Marker radius of a series: four pixels with a third coordinate, three without.
pub open spec fn marker_size(s: DataSeries) -> i64 {
    if s.z@.len() > 0 {
        (4 * SCALE) as i64
    } else {
        (3 * SCALE) as i64
    }
}

/// Stroke width of the lines that join the points of a series.
pub const SERIES_LINE_WIDTH: i64 = 1_500_000;

/// The end points of the segments that join each position to the next.
pub open spec fn joined(positions: Seq<ScenePoint>) -> Seq<ScenePoint> {
    Seq::new((2 * (positions.len() - 1)) as nat, |k: int| positions[k / 2 + k % 2])
}

/// The markers of a scene as mathematical values.
pub struct ScatterModel {
    pub positions: Seq<ScenePoint>,
    pub color: Rgba,
    pub point_size: i64,
}

/// The segments of a scene as mathematical values.
pub struct LineModel {
    pub segments: Seq<ScenePoint>,
    pub color: Rgba,
    pub line_width: i64,
}

/// The model of the markers of a series.
pub open spec fn scatter_model(d: Scatter3DData) -> ScatterModel {
    ScatterModel { positions: d.positions@, color: d.color, point_size: d.point_size }
}

/// The model of the segments of a series.
pub open spec fn line_model(d: Line3DData) -> LineModel {
    LineModel { segments: d.segments@, color: d.color, line_width: d.line_width }
}

/// The models of a vector of markers.
pub open spec fn scatter_models(data: Seq<Scatter3DData>) -> Seq<ScatterModel> {
    Seq::new(data.len(), |k: int| scatter_model(data[k]))
}

/// The models of a vector of segments.
pub open spec fn line_models(data: Seq<Line3DData>) -> Seq<LineModel> {
    Seq::new(data.len(), |k: int| line_model(data[k]))
}

/// A colour from its four channels.
pub open spec fn color_of(c: Seq<u8>) -> Rgba {
    Rgba { r: c[0], g: c[1], b: c[2], a: c[3] }
}

/// The markers of the first `upto` series: one entry for each shown series
/// with at least one finite point.
pub open spec fn planned_scatter(series: Seq<DataSeries>, b: DataBounds, upto: int) -> Seq<
    ScatterModel,
>
    decreases upto,
{
    if upto <= 0 {
        Seq::empty()
    } else {
        let rest = planned_scatter(series, b, upto - 1);
        let s = series[upto - 1];
        let positions = scene_positions(s, b, scene_len(s));
        if s.visible && positions.len() > 0 {
            rest.push(
                ScatterModel { positions, color: color_of(s.color@), point_size: marker_size(s) },
            )
        } else {
            rest
        }
    }
}

/// The segments of the first `upto` series: one entry for each shown series
/// that is joined by lines and has at least two finite points.
pub open spec fn planned_lines(series: Seq<DataSeries>, b: DataBounds, upto: int) -> Seq<LineModel>
    decreases upto,
{
    if upto <= 0 {
        Seq::empty()
    } else {
        let rest = planned_lines(series, b, upto - 1);
        let s = series[upto - 1];
        let positions = scene_positions(s, b, scene_len(s));
        if s.visible && s.interpolation == InterpolationMode::Linear && positions.len() >= 2 {
            rest.push(
                LineModel {
                    segments: joined(positions),
                    color: color_of(s.color@),
                    line_width: SERIES_LINE_WIDTH,
                },
            )
        } else {
            rest
        }
    }
}

// ---------------------------------------------------------------------------
// The wireframe grid
// ---------------------------------------------------------------------------

/// Lower end of the cube along each axis.
pub const CUBE_MIN: i64 = -1_000_000;

/// Upper end of the cube along each axis.
pub const CUBE_MAX: i64 = 1_000_000;

/// Corner `i` of the cube.
pub open spec fn cube_corner(i: int) -> ScenePoint {
    if i == 0 {
        ScenePoint { x: CUBE_MIN, y: CUBE_MIN, z: CUBE_MIN }
    } else if i == 1 {
        ScenePoint { x: CUBE_MAX, y: CUBE_MIN, z: CUBE_MIN }
    } else if i == 2 {
        ScenePoint { x: CUBE_MAX, y: CUBE_MAX, z: CUBE_MIN }
    } else if i == 3 {
        ScenePoint { x: CUBE_MIN, y: CUBE_MAX, z: CUBE_MIN }
    } else if i == 4 {
        ScenePoint { x: CUBE_MIN, y: CUBE_MIN, z: CUBE_MAX }
    } else if i == 5 {
        ScenePoint { x: CUBE_MAX, y: CUBE_MIN, z: CUBE_MAX }
    } else if i == 6 {
        ScenePoint { x: CUBE_MAX, y: CUBE_MAX, z: CUBE_MAX }
    } else {
        ScenePoint { x: CUBE_MIN, y: CUBE_MAX, z: CUBE_MAX }
    }
}

/// The two corners that edge `e` of the cube joins: four edges of the back
/// face, four of the front face, four between them.
pub open spec fn cube_edge(e: int) -> (int, int) {
    if e < 4 {
        (e, (e + 1) % 4)
    } else if e < 8 {
        (e, 4 + (e - 3) % 4)
    } else {
        (e - 8, e - 4)
    }
}

/// The coordinate of tick `i` of five subdivisions of `-1 ..= 1`.
pub open spec fn tick_coord(i: int) -> int {
    -SCALE + (i * 2 * SCALE) / 5
}

/// End point `k` of the eight that tick `i` adds to the grid: a line across
/// the bottom face in each direction, one up the back face, and one across
/// the left face.
pub open spec fn tick_point(i: int, k: int) -> ScenePoint {
    let t = tick_coord(i) as i64;
    if k == 0 {
        ScenePoint { x: t, y: CUBE_MIN, z: CUBE_MIN }
    } else if k == 1 {
        ScenePoint { x: t, y: CUBE_MIN, z: CUBE_MAX }
    } else if k == 2 {
        ScenePoint { x: CUBE_MIN, y: CUBE_MIN, z: t }
    } else if k == 3 {
        ScenePoint { x: CUBE_MAX, y: CUBE_MIN, z: t }
    } else if k == 4 {
        ScenePoint { x: t, y: CUBE_MIN, z: CUBE_MIN }
    } else if k == 5 {
        ScenePoint { x: t, y: CUBE_MAX, z: CUBE_MIN }
    } else if k == 6 {
        ScenePoint { x: CUBE_MIN, y: t, z: CUBE_MIN }
    } else {
        ScenePoint { x: CUBE_MIN, y: t, z: CUBE_MAX }
    }
}

/// End point `k` of the grid: first the twelve edges of the cube, then the
/// lines of the four inner ticks.
pub open spec fn grid_point(k: int) -> ScenePoint {
    if k < 24 {
        if k % 2 == 0 {
            cube_corner(cube_edge(k / 2).0)
        } else {
            cube_corner(cube_edge(k / 2).1)
        }
    } else {
        tick_point(1 + (k - 24) / 8, (k - 24) % 8)
    }
}

/// The end points of the wireframe grid.
pub open spec fn grid_points() -> Seq<ScenePoint> {
    Seq::new(56, |k: int| grid_point(k))
}

fn corner(i: usize) -> (p: ScenePoint)
    requires
        i < 8,
    ensures
        p == cube_corner(i as int),
{
    if i == 0 {
        ScenePoint { x: CUBE_MIN, y: CUBE_MIN, z: CUBE_MIN }
    } else if i == 1 {
        ScenePoint { x: CUBE_MAX, y: CUBE_MIN, z: CUBE_MIN }
    } else if i == 2 {
        ScenePoint { x: CUBE_MAX, y: CUBE_MAX, z: CUBE_MIN }
    } else if i == 3 {
        ScenePoint { x: CUBE_MIN, y: CUBE_MAX, z: CUBE_MIN }
    } else if i == 4 {
        ScenePoint { x: CUBE_MIN, y: CUBE_MIN, z: CUBE_MAX }
    } else if i == 5 {
        ScenePoint { x: CUBE_MAX, y: CUBE_MIN, z: CUBE_MAX }
    } else if i == 6 {
        ScenePoint { x: CUBE_MAX, y: CUBE_MAX, z: CUBE_MAX }
    } else {
        ScenePoint { x: CUBE_MIN, y: CUBE_MAX, z: CUBE_MAX }
    }
}

/// Builds the wireframe grid of the cube: its twelve edges and, at each of
/// the four inner ticks of five subdivisions, four lines on its faces.
pub fn build_3d_grid() -> (segments: Vec<ScenePoint>)
    ensures
        segments@ == grid_points(),
{
    let mut segments: Vec<ScenePoint> = Vec::new();
    let mut e: usize = 0;
    while e < 12
        invariant
            e <= 12,
            segments@.len() == 2 * e,
            forall|k: int| 0 <= k < 2 * e ==> segments@[k] == grid_point(k),
        decreases 12 - e,
    {
        let (a, b) = if e < 4 {
            (e, (e + 1) % 4)
        } else if e < 8 {
            (e, 4 + (e - 3) % 4)
        } else {
            (e - 8, e - 4)
        };
        segments.push(corner(a));
        segments.push(corner(b));
        e += 1;
    }
    let mut i: usize = 1;
    while i < 5
        invariant
            1 <= i <= 5,
            segments@.len() == 24 + 8 * (i - 1),
            forall|k: int| 0 <= k < 24 + 8 * (i - 1) ==> segments@[k] == grid_point(k),
        decreases 5 - i,
    {
            let t: i64 = -SCALE + ((i as i64) * 2 * SCALE) / 5;
        segments.push(ScenePoint { x: t, y: CUBE_MIN, z: CUBE_MIN });
        segments.push(ScenePoint { x: t, y: CUBE_MIN, z: CUBE_MAX });
        segments.push(ScenePoint { x: CUBE_MIN, y: CUBE_MIN, z: t });
        segments.push(ScenePoint { x: CUBE_MAX, y: CUBE_MIN, z: t });
        segments.push(ScenePoint { x: t, y: CUBE_MIN, z: CUBE_MIN });
        segments.push(ScenePoint { x: t, y: CUBE_MAX, z: CUBE_MIN });
        segments.push(ScenePoint { x: CUBE_MIN, y: t, z: CUBE_MIN });
        segments.push(ScenePoint { x: CUBE_MIN, y: t, z: CUBE_MAX });
        i += 1;
    }
    assert(segments@ =~= grid_points());
    segments
}

// ---------------------------------------------------------------------------
// Executable code
// ---------------------------------------------------------------------------

fn axis_extent(series: &[DataSeries], axis: Axis) -> (r: (Option<i64>, Option<i64>))
    ensures
        r.0 == axis_low(series@, axis),
        r.1 == axis_high(series@, axis),
        r.0.is_some() == r.1.is_some(),
        r.0.is_some() ==> r.0.unwrap() <= r.1.unwrap() && finite(r.0.unwrap() as int) && finite(
            r.1.unwrap() as int,
        ),
{
    let mut lo: Option<i64> = None;
    let mut hi: Option<i64> = None;
    let mut i: usize = 0;
    while i < series.len()
        invariant
            i <= series.len(),
            lo == axis_low(series@.subrange(0, i as int), axis),
            hi == axis_high(series@.subrange(0, i as int), axis),
            lo.is_some() == hi.is_some(),
            lo.is_some() ==> lo.unwrap() <= hi.unwrap() && finite(lo.unwrap() as int) && finite(
                hi.unwrap() as int,
            ),
        decreases series.len() - i,
    {
        let s = &series[i];
        proof {
            let t = series@.subrange(0, i + 1);
            assert(t.drop_last() =~= series@.subrange(0, i as int));
            assert(t.last() == series@[i as int]);
            lemma_low_le_high(axis_values(*s, axis));
            lemma_finite_low(axis_values(*s, axis));
            lemma_finite_high(axis_values(*s, axis));
        }
        if s.visible {
            let (a, b) = match axis {
                Axis::X => slice_extent(s.x.as_slice()),
                Axis::Y => slice_extent(s.y.as_slice()),
                Axis::Z => slice_extent(s.z.as_slice()),
            };
            lo = lower(lo, a);
            hi = higher(hi, b);
        }
        i += 1;
    }
    assert(series@.subrange(0, series.len() as int) =~= series@);
    (lo, hi)
}

fn bounds_of(low: Option<i64>, high: Option<i64>) -> (r: (i64, i64))
    requires
        low.is_some() == high.is_some(),
        low.is_some() ==> low.unwrap() <= high.unwrap() && finite(low.unwrap() as int) && finite(
            high.unwrap() as int,
        ),
    ensures
        (r.0 as int, r.1 as int) == axis_bounds(low, high),
        -COORD_MAX - SCALE <= r.0 < r.1 <= COORD_MAX + SCALE,
{
    match (low, high) {
        (Some(lo), Some(hi)) => {
            if hi == lo {
                (-SCALE, SCALE)
            } else {
                (lo, hi)
            }
        },
        _ => (-SCALE, SCALE),
    }
}

/// The bounding box of all shown series: along each axis the span of the
/// finite data, and `-1 ..= 1` where there is none or where it has no span.
pub fn compute_data_bounds_3d(series: &[DataSeries]) -> (b: DataBounds)
    ensures
        b == scene_bounds(series@),
        bounds_valid(b),
{
    let (xl, xh) = axis_extent(series, Axis::X);
    let (yl, yh) = axis_extent(series, Axis::Y);
    let (zl, zh) = axis_extent(series, Axis::Z);
    let bx = bounds_of(xl, xh);
    let by = bounds_of(yl, yh);
    let bz = bounds_of(zl, zh);
    DataBounds {
        min: ScenePoint { x: bx.0, y: by.0, z: bz.0 },
        max: ScenePoint { x: bx.1, y: by.1, z: bz.1 },
    }
}

fn normalize_coord(v: i64, lo: i64, hi: i64) -> (n: i64)
    requires
        finite(v as int),
        -COORD_MAX - SCALE <= lo < hi <= COORD_MAX + SCALE,
    ensures
        n == normalized_coord(v as int, lo as int, hi as int),
{
    let offset: i128 = v as i128 - lo as i128;
    let span: i128 = hi as i128 - lo as i128;
    assert(-3 * COORD_MAX * 2 * SCALE <= offset * (2 * SCALE) <= 3 * COORD_MAX * 2 * SCALE)
        by (nonlinear_arith)
        requires
            -3 * COORD_MAX <= offset <= 3 * COORD_MAX,
    ;
    let q = div_floor(offset * (2 * SCALE as i128), span);
    clamp_wide(q - SCALE as i128)
}

/// Scales a finite data point into the cube.
pub fn normalize_point(x: i64, y: i64, z: i64, bounds: DataBounds) -> (p: ScenePoint)
    requires
        finite(x as int),
        finite(y as int),
        finite(z as int),
        bounds_valid(bounds),
    ensures
        p == normalized_point(x as int, y as int, z as int, bounds),
{
    ScenePoint {
        x: normalize_coord(x, bounds.min.x, bounds.max.x),
        y: normalize_coord(y, bounds.min.y, bounds.max.y),
        z: normalize_coord(z, bounds.min.z, bounds.max.z),
    }
}

/// The positions in the cube of the points of a series whose coordinates
/// are all finite; a flat series lies in the plane of depth zero.
pub fn build_positions(s: &DataSeries, bounds: DataBounds) -> (positions: Vec<ScenePoint>)
    requires
        bounds_valid(bounds),
    ensures
        positions@ == scene_positions(*s, bounds, scene_len(*s)),
{
    let mut n = if s.x.len() <= s.y.len() {
        s.x.len()
    } else {
        s.y.len()
    };
    let has_z = s.z.len() > 0;
    if has_z && s.z.len() < n {
        n = s.z.len();
    }
    let mut positions: Vec<ScenePoint> = Vec::new();
    let mut k: usize = 0;
    while k < n
        invariant
            k <= n,
            n == scene_len(*s),
            has_z == (s.z@.len() > 0),
            bounds_valid(bounds),
            positions@ == scene_positions(*s, bounds, k as int),
        decreases n - k,
    {
        let zv = if has_z {
            s.z[k]
        } else {
            0
        };
        if is_finite(s.x[k]) && is_finite(s.y[k]) && is_finite(zv) {
            positions.push(normalize_point(s.x[k], s.y[k], zv, bounds));
        }
        k += 1;
    }
    positions
}

fn join_positions(positions: &Vec<ScenePoint>) -> (out: Vec<ScenePoint>)
    requires
        positions@.len() >= 1,
    ensures
        out@ == joined(positions@),
{
    let mut out: Vec<ScenePoint> = Vec::new();
    let mut i: usize = 0;
    while i < positions.len() - 1
        invariant
            positions@.len() >= 1,
            i <= positions.len() - 1,
            out@.len() == 2 * i,
            forall|k: int| 0 <= k < 2 * i ==> out@[k] == positions@[k / 2 + k % 2],
        decreases positions.len() - i,
    {
        out.push(positions[i]);
        out.push(positions[i + 1]);
        i += 1;
    }
    assert(out@ =~= joined(positions@));
    out
}

/// What one frame of a plot in space hands to drawing.
pub struct SceneFrame {
    pub bounds: DataBounds,
    pub scatter_data: Vec<Scatter3DData>,
    /// The wireframe grid, then the lines of the series.
    pub line_data: Vec<Line3DData>,
    /// The colour that the offscreen target is cleared to.
    pub background: Rgba,
}

/// The colour of the wireframe grid: the grid colour of the theme at half
/// its opacity.
pub open spec fn scene_grid_color(theme: Theme) -> Rgba {
    let c = grid_rgba(theme);
    Rgba { r: c.0, g: c.1, b: c.2, a: c.3 / 2 }
}

/// The background of a scene: the plot background of the theme, opaque.
pub open spec fn scene_background(theme: Theme) -> Rgba {
    let c = plot_bg_rgb(theme);
    Rgba { r: c.0, g: c.1, b: c.2, a: 255 }
}

/// The wireframe grid as the first entry of the line data.
pub open spec fn grid_model(theme: Theme) -> LineModel {
    LineModel { segments: grid_points(), color: scene_grid_color(theme), line_width: SCALE }
}

/// Builds the scene of a plot in space: the bounding box of the shown
/// series, the wireframe grid, and the markers and joining lines of the
/// series scaled into the cube.
pub fn build_scene(series: &[DataSeries], theme: Theme) -> (frame: SceneFrame)
    ensures
        frame.bounds == scene_bounds(series@),
        bounds_valid(frame.bounds),
        frame.background == scene_background(theme),
        scatter_models(frame.scatter_data@) == planned_scatter(
            series@,
            frame.bounds,
            series@.len() as int,
        ),
        line_models(frame.line_data@) == seq![grid_model(theme)] + planned_lines(
            series@,
            frame.bounds,
            series@.len() as int,
        ),
{
    let bounds = compute_data_bounds_3d(series);
    let mut scatter_data: Vec<Scatter3DData> = Vec::new();
    let mut line_data: Vec<Line3DData> = Vec::new();
    let g = theme.grid_color();
    let grid = Line3DData {
        segments: build_3d_grid(),
        color: Rgba { r: g.0, g: g.1, b: g.2, a: g.3 / 2 },
        line_width: SCALE,
    };
    let ghost first = seq![line_model(grid)];
    line_data.push(grid);
    let mut i: usize = 0;
    assert(scatter_models(scatter_data@) =~= planned_scatter(series@, bounds, 0));
    assert(line_models(line_data@) =~= first + planned_lines(series@, bounds, 0));
    while i < series.len()
        invariant
            i <= series.len(),
            bounds_valid(bounds),
            first == seq![grid_model(theme)],
            scatter_models(scatter_data@) == planned_scatter(series@, bounds, i as int),
            line_models(line_data@) == first + planned_lines(series@, bounds, i as int),
        decreases series.len() - i,
    {
        let s = &series[i];
        let positions = build_positions(s, bounds);
        if s.visible && positions.len() > 0 {
            let color = Rgba { r: s.color[0], g: s.color[1], b: s.color[2], a: s.color[3] };
            if s.interpolation == InterpolationMode::Linear && positions.len() >= 2 {
                let ghost before = planned_lines(series@, bounds, i as int);
                let ghost models = line_models(line_data@);
                let segments = join_positions(&positions);
                let line = Line3DData { segments, color, line_width: SERIES_LINE_WIDTH };
                let ghost m = line_model(line);
                line_data.push(line);
                assert(line_models(line_data@) =~= models.push(m));
                assert((first + before).push(m) =~= first + before.push(m));
            }
            let ghost before = scatter_models(scatter_data@);
            let size = if s.z.len() > 0 {
                4 * SCALE
            } else {
                3 * SCALE
            };
            let dots = Scatter3DData { positions, color, point_size: size };
            let ghost m = scatter_model(dots);
            scatter_data.push(dots);
            assert(scatter_models(scatter_data@) =~= before.push(m));
        }
        i += 1;
    }
    let bg = theme.plot_bg();
    SceneFrame {
        bounds,
        scatter_data,
        line_data,
        background: Rgba { r: bg.0, g: bg.1, b: bg.2, a: 255 },
    }
}

/// A label of the scene: where it is anchored in the cube and the data
/// value it shows.
#[derive(Debug, Clone, Copy, PartialEq, Eq, Structural)]
pub struct TickLabel {
    pub axis: Axis,
    pub anchor: ScenePoint,
    pub value: i64,
}

/// Where the name of an axis is anchored: beside the middle of an edge.
pub open spec fn axis_name_anchor(axis: Axis) -> ScenePoint {
    match axis {
        Axis::X => ScenePoint { x: 0, y: LABEL_NEAR, z: LABEL_NEAR },
        Axis::Y => ScenePoint { x: LABEL_NEAR, y: 0, z: LABEL_NEAR },
        Axis::Z => ScenePoint { x: LABEL_NEAR, y: LABEL_NEAR, z: 0 },
    }
}

/// Distance of the axis names from the cube's centre plane: `-1.15`.
pub const LABEL_NEAR: i64 = -1_150_000;

/// The anchor of the name of `axis`.
pub fn axis_name_position(axis: Axis) -> (p: ScenePoint)
    ensures
        p == axis_name_anchor(axis),
{
    match axis {
        Axis::X => ScenePoint { x: 0, y: LABEL_NEAR, z: LABEL_NEAR },
        Axis::Y => ScenePoint { x: LABEL_NEAR, y: 0, z: LABEL_NEAR },
        Axis::Z => ScenePoint { x: LABEL_NEAR, y: LABEL_NEAR, z: 0 },
    }
}

/// Distance of the tick labels from the cube's centre plane: `-1.2`.
pub const LABEL_FAR: i64 = -1_200_000;

/// The position along the cube of tick `i` of four subdivisions.
pub open spec fn quarter_coord(i: int) -> int {
    -SCALE + (i * 2 * SCALE) / 4
}

/// The data value at tick `i` of four subdivisions of `lo ..= hi`.
pub open spec fn quarter_value(i: int, lo: int, hi: int) -> int {
    lo + (i * (hi - lo)) / 4
}

/// The label of tick `i` along `axis`.
pub open spec fn tick_label(axis: Axis, i: int, b: DataBounds) -> TickLabel {
    let c = quarter_coord(i) as i64;
    match axis {
        Axis::X => TickLabel {
            axis,
            anchor: ScenePoint { x: c, y: CUBE_MIN, z: LABEL_FAR },
            value: quarter_value(i, b.min.x as int, b.max.x as int) as i64,
        },
        Axis::Y => TickLabel {
            axis,
            anchor: ScenePoint { x: LABEL_FAR, y: c, z: CUBE_MIN },
            value: quarter_value(i, b.min.y as int, b.max.y as int) as i64,
        },
        Axis::Z => TickLabel {
            axis,
            anchor: ScenePoint { x: LABEL_FAR, y: CUBE_MIN, z: c },
            value: quarter_value(i, b.min.z as int, b.max.z as int) as i64,
        },
    }
}

/// The axis that label `k` of the tick labels belongs to.
pub open spec fn label_axis(k: int) -> Axis {
    if k % 3 == 0 {
        Axis::X
    } else if k % 3 == 1 {
        Axis::Y
    } else {
        Axis::Z
    }
}

/// The tick labels of a scene: five along each axis, tick by tick.
pub open spec fn tick_labels(b: DataBounds) -> Seq<TickLabel> {
    Seq::new(15, |k: int| tick_label(label_axis(k), k / 3, b))
}

fn quarter(i: i64, lo: i64, hi: i64) -> (v: i64)
    requires
        0 <= i <= 4,
        -COORD_MAX - SCALE <= lo < hi <= COORD_MAX + SCALE,
    ensures
        v == quarter_value(i as int, lo as int, hi as int),
{
    let span: i128 = hi as i128 - lo as i128;
    assert(0 <= i * span <= 4 * span) by (nonlinear_arith)
        requires
            0 <= i <= 4,
            span >= 0,
    ;
    let q: i128 = ((i as i128) * span) / 4;
    (lo as i128 + q) as i64
}

/// The anchors and values of the tick labels of a scene.
pub fn build_tick_labels(bounds: DataBounds) -> (labels: Vec<TickLabel>)
    requires
        bounds_valid(bounds),
    ensures
        labels@ == tick_labels(bounds),
{
    let mut labels: Vec<TickLabel> = Vec::new();
    let mut i: i64 = 0;
    while i <= 4
        invariant
            0 <= i <= 5,
            bounds_valid(bounds),
            labels@.len() == 3 * i,
            forall|k: int| 0 <= k < 3 * i ==> labels@[k] == tick_label(label_axis(k), k / 3, bounds),
        decreases 5 - i,
    {
        let c: i64 = -SCALE + (i * 2 * SCALE) / 4;
        labels.push(
            TickLabel {
                axis: Axis::X,
                anchor: ScenePoint { x: c, y: CUBE_MIN, z: LABEL_FAR },
                value: quarter(i, bounds.min.x, bounds.max.x),
            },
        );
        labels.push(
            TickLabel {
                axis: Axis::Y,
                anchor: ScenePoint { x: LABEL_FAR, y: c, z: CUBE_MIN },
                value: quarter(i, bounds.min.y, bounds.max.y),
            },
        );
        labels.push(
            TickLabel {
                axis: Axis::Z,
                anchor: ScenePoint { x: LABEL_FAR, y: CUBE_MIN, z: c },
                value: quarter(i, bounds.min.z, bounds.max.z),
            },
        );
        i += 1;
    }
    assert(labels@ =~= tick_labels(bounds));
    labels
}

/// Whether a label is drawn whose anchor projects to `pos` with the
/// homogeneous coordinate `w`: not behind the camera and inside the viewport.
pub fn label_visible(w: i64, pos: ScreenPos, rect: ScreenRect) -> (r: bool)
    ensures
        r == (w > 0 && rect.left <= pos.x && pos.x <= rect.left + rect.width && rect.top <= pos.y
            && pos.y <= rect.top + rect.height),
{
    w > 0 && rect.left <= pos.x && (pos.x as i128) <= rect.left as i128 + rect.width as i128
        && rect.top <= pos.y && (pos.y as i128) <= rect.top as i128 + rect.height as i128
}

} // verus!
