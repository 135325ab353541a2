//! The draw calls of a flat chart: which pipeline draws which vertices how
//! many times, in paint order.

use vstd::prelude::*;
use crate::render::gpu_types::{DrawMode, GridGpuData, PlotUniforms, Point2, SeriesGpuData};

verus! {

/// The pipeline that executes a draw call.
#[derive(Debug, Clone, Copy, PartialEq, Eq, Structural)]
pub enum PipelineType {
    /// Quads around segments; the vertex buffer holds two points per instance.
    Line,
    /// Round markers; the vertex buffer holds one point per instance.
    Point,
}

/// One draw call: its parameter block, its read-only vertex buffer, and how
/// many instances the pipeline draws from it.
#[derive(Debug, Clone)]
pub struct DrawCall {
    pub uniforms: PlotUniforms,
    pub vertices: Vec<Point2>,
    pub instance_count: u32,
    pub pipeline_type: PipelineType,
}

/// A draw call as a mathematical value.
pub struct CallModel {
    pub uniforms: PlotUniforms,
    pub vertices: Seq<Point2>,
    pub instance_count: int,
    pub pipeline_type: PipelineType,
}

impl View for DrawCall {
    type V = CallModel;

    open spec fn view(&self) -> CallModel {
        CallModel {
            uniforms: self.uniforms,
            vertices: self.vertices@,
            instance_count: self.instance_count as int,
            pipeline_type: self.pipeline_type,
        }
    }
}

/// An instance count as the backend takes it: limited to 32 bits.
pub open spec fn limited_count(n: int) -> int {
    if n > u32::MAX {
        u32::MAX as int
    } else {
        n
    }
}

/// How many segments join the points of a polyline.
pub open spec fn segment_count(points: Seq<Point2>) -> nat {
    if points.len() == 0 {
        0
    } else {
        (points.len() - 1) as nat
    }
}

/// The vertices of the segments that join each point to the next.
pub open spec fn line_vertices(points: Seq<Point2>) -> Seq<Point2> {
    Seq::new(2 * segment_count(points), |k: int| points[k / 2 + k % 2])
}

/// The corner of a step between two points: across first, then up or down.
pub open spec fn step_corner(from: Point2, to: Point2) -> Point2 {
    Point2 { x: to.x, y: from.y }
}

/// The vertices of the steps that join each point to the next: for each
/// pair the segment to the corner, then the segment from the corner.
pub open spec fn step_vertices(points: Seq<Point2>) -> Seq<Point2> {
    Seq::new(
        4 * segment_count(points),
        |k: int|
            if k % 4 == 0 {
                points[k / 4]
            } else if k % 4 == 3 {
                points[k / 4 + 1]
            } else {
                step_corner(points[k / 4], points[k / 4 + 1])
            },
    )
}

/// The draw call of the grid: none for fewer than two end points.
pub open spec fn grid_call(grid: GridGpuData, base: PlotUniforms) -> Option<CallModel> {
    if grid.segments@.len() >= 2 {
        Some(
            CallModel {
                uniforms: PlotUniforms { color: grid.color, line_width: grid.line_width, ..base },
                vertices: grid.segments@,
                instance_count: limited_count(grid.segments@.len() as int / 2),
                pipeline_type: PipelineType::Line,
            },
        )
    } else {
        None
    }
}

/// The draw call of one series: none for a series without points, and none
/// for a single point that is not drawn as a marker.
pub open spec fn series_call(s: SeriesGpuData, base: PlotUniforms) -> Option<CallModel> {
    if s.points@.len() == 0 || (s.points@.len() < 2 && s.draw_mode != DrawMode::Points) {
        None
    } else {
        match s.draw_mode {
            DrawMode::Lines => Some(
                CallModel {
                    uniforms: PlotUniforms { color: s.color, line_width: s.line_width, ..base },
                    vertices: line_vertices(s.points@),
                    instance_count: limited_count(s.points@.len() - 1),
                    pipeline_type: PipelineType::Line,
                },
            ),
            DrawMode::Step => Some(
                CallModel {
                    uniforms: PlotUniforms { color: s.color, line_width: s.line_width, ..base },
                    vertices: step_vertices(s.points@),
                    instance_count: limited_count(2 * (s.points@.len() - 1)),
                    pipeline_type: PipelineType::Line,
                },
            ),
            DrawMode::Points => Some(
                CallModel {
                    uniforms: PlotUniforms { color: s.color, point_radius: s.point_radius, ..base },
                    vertices: s.points@,
                    instance_count: limited_count(s.points@.len() as int),
                    pipeline_type: PipelineType::Point,
                },
            ),
        }
    }
}

/// A sequence with an optional element appended.
pub open spec fn with_optional(calls: Seq<CallModel>, call: Option<CallModel>) -> Seq<CallModel> {
    match call {
        Some(c) => calls.push(c),
        None => calls,
    }
}

/// The draw calls of the grid and the first `upto` series, in paint order.
pub open spec fn planned_calls(
    series: Seq<SeriesGpuData>,
    grid: GridGpuData,
    base: PlotUniforms,
    upto: int,
) -> Seq<CallModel>
    decreases upto,
{
    if upto <= 0 {
        with_optional(Seq::empty(), grid_call(grid, base))
    } else {
        with_optional(planned_calls(series, grid, base, upto - 1), series_call(series[upto - 1], base))
    }
}

/// The models of a vector of draw calls.
pub open spec fn call_models(calls: Seq<DrawCall>) -> Seq<CallModel> {
    Seq::new(calls.len(), |k: int| calls[k]@)
}

fn limit_count(n: usize) -> (c: u32)
    ensures
        c == limited_count(n as int),
{
    if n > u32::MAX as usize {
        u32::MAX
    } else {
        n as u32
    }
}

fn copy_points(points: &Vec<Point2>) -> (out: Vec<Point2>)
    ensures
        out@ == points@,
{
    let mut out: Vec<Point2> = Vec::new();
    let mut i: usize = 0;
    while i < points.len()
        invariant
            i <= points.len(),
            out@ == points@.subrange(0, i as int),
        decreases points.len() - i,
    {
        out.push(points[i]);
        assert(out@ =~= points@.subrange(0, i + 1));
        i += 1;
    }
    assert(points@.subrange(0, points@.len() as int) =~= points@);
    out
}

/// Expands a polyline into the end points of its segments.
pub fn expand_lines(points: &Vec<Point2>) -> (out: Vec<Point2>)
    ensures
        out@ == line_vertices(points@),
{
    let mut out: Vec<Point2> = Vec::new();
    let segments: usize = if points.len() == 0 {
        0
    } else {
        points.len() - 1
    };
    let mut i: usize = 0;
    while i < segments
        invariant
            segments == segment_count(points@),
            i <= segments,
            out@.len() == 2 * i,
            forall|k: int| 0 <= k < 2 * i ==> out@[k] == points@[k / 2 + k % 2],
        decreases segments - i,
    {
        out.push(points[i]);
        out.push(points[i + 1]);
        i += 1;
    }
    assert(out@ =~= line_vertices(points@));
    out
}

/// Expands a polyline into the end points of the segments of its steps.
pub fn expand_steps(points: &Vec<Point2>) -> (out: Vec<Point2>)
    ensures
        out@ == step_vertices(points@),
{
    let mut out: Vec<Point2> = Vec::new();
    let segments: usize = if points.len() == 0 {
        0
    } else {
        points.len() - 1
    };
    let mut i: usize = 0;
    while i < segments
        invariant
            segments == segment_count(points@),
            i <= segments,
            out@.len() == 4 * i,
            forall|k: int|
                0 <= k < 4 * i ==> out@[k] == if k % 4 == 0 {
                    points@[k / 4]
                } else if k % 4 == 3 {
                    points@[k / 4 + 1]
                } else {
                    step_corner(points@[k / 4], points@[k / 4 + 1])
                },
        decreases segments - i,
    {
        let from = points[i];
        let to = points[i + 1];
        let mid = Point2 { x: to.x, y: from.y };
        out.push(from);
        out.push(mid);
        out.push(mid);
        out.push(to);
        i += 1;
    }
    assert(out@ =~= step_vertices(points@));
    out
}

/// The draw call of the grid, if it has any line.
pub fn plan_grid(grid: &GridGpuData, base: PlotUniforms) -> (r: Option<DrawCall>)
    ensures
        match r {
            Some(c) => grid_call(*grid, base) == Some(c@),
            None => grid_call(*grid, base).is_none(),
        },
{
    if grid.segments.len() >= 2 {
        let mut uniforms = base;
        uniforms.color = grid.color;
        uniforms.line_width = grid.line_width;
        Some(
            DrawCall {
                uniforms,
                vertices: copy_points(&grid.segments),
                instance_count: limit_count(grid.segments.len() / 2),
                pipeline_type: PipelineType::Line,
            },
        )
    } else {
        None
    }
}

/// The draw call of one series, if it has anything to draw.
pub fn plan_series(s: &SeriesGpuData, base: PlotUniforms) -> (r: Option<DrawCall>)
    ensures
        match r {
            Some(c) => series_call(*s, base) == Some(c@),
            None => series_call(*s, base).is_none(),
        },
{
    let n = s.points.len();
    if n == 0 {
        return None;
    }
    match s.draw_mode {
        DrawMode::Lines => {
            if n < 2 {
                return None;
            }
            let mut uniforms = base;
            uniforms.color = s.color;
            uniforms.line_width = s.line_width;
            Some(
                DrawCall {
                    uniforms,
                    vertices: expand_lines(&s.points),
                    instance_count: limit_count(n - 1),
                    pipeline_type: PipelineType::Line,
                },
            )
        },
        DrawMode::Step => {
            if n < 2 {
                return None;
            }
            let mut uniforms = base;
            uniforms.color = s.color;
            uniforms.line_width = s.line_width;
            let vertices = expand_steps(&s.points);
            let count = if n - 1 > (u32::MAX as usize) / 2 {
                u32::MAX
            } else {
                limit_count(2 * (n - 1))
            };
            Some(DrawCall { uniforms, vertices, instance_count: count, pipeline_type: PipelineType::Line })
        },
        DrawMode::Points => {
            let mut uniforms = base;
            uniforms.color = s.color;
            uniforms.point_radius = s.point_radius;
            Some(
                DrawCall {
                    uniforms,
                    vertices: copy_points(&s.points),
                    instance_count: limit_count(n),
                    pipeline_type: PipelineType::Point,
                },
            )
        },
    }
}

/// Builds the draw calls of a chart in paint order: first the grid, then
/// each series. All share the parameter block `base` but for the colour and
/// the stroke width or marker radius of what they draw.
pub fn build_draw_calls(series: &[SeriesGpuData], grid: &GridGpuData, base: PlotUniforms) -> (calls:
    Vec<DrawCall>)
    ensures
        call_models(calls@) == planned_calls(series@, *grid, base, series@.len() as int),
{
    let mut calls: Vec<DrawCall> = Vec::new();
    match plan_grid(grid, base) {
        Some(c) => {
            calls.push(c);
        },
        None => {},
    }
    assert(call_models(calls@) =~= planned_calls(series@, *grid, base, 0));
    let mut i: usize = 0;
    while i < series.len()
        invariant
            i <= series.len(),
            call_models(calls@) == planned_calls(series@, *grid, base, i as int),
        decreases series.len() - i,
    {
        let ghost before = call_models(calls@);
        match plan_series(&series[i], base) {
            Some(c) => {
                calls.push(c);
                assert(call_models(calls@) =~= before.push(c@));
            },
            None => {},
        }
        i += 1;
    }
    calls
}

/// A rectangle of the render target, in physical pixels.
#[derive(Debug, Clone, Copy, PartialEq, Eq, Structural)]
pub struct PixelRect {
    pub left_px: i32,
    pub top_px: i32,
    pub width_px: i32,
    pub height_px: i32,
}

impl PixelRect {
    /// Whether the rectangle holds any pixel.
    pub open spec fn has_area(&self) -> bool {
        self.width_px > 0 && self.height_px > 0
    }
}

/// One draw of the paint step: the pipeline to set and the instances to draw.
#[derive(Debug, Clone, Copy, PartialEq, Eq, Structural)]
pub struct Draw {
    pub pipeline_type: PipelineType,
    pub instance_count: u32,
}

/// What the paint step does with the draw calls of a chart.
#[derive(Debug, Clone)]
pub struct PaintPlan {
    /// Whether drawing is cut to the clip rectangle.
    pub set_scissor: bool,
    /// The draws, in paint order.
    pub draws: Vec<Draw>,
}

/// Plans the paint step: nothing is painted without draw calls or into a
/// viewport without area; otherwise every call is drawn in order, cut to the
/// clip rectangle if that has an area.
pub fn plan_paint(calls: &Vec<DrawCall>, viewport: PixelRect, clip: PixelRect) -> (plan: Option<
    PaintPlan,
>)
    ensures
        plan.is_some() == (calls@.len() > 0 && viewport.has_area()),
        plan.is_some() ==> {
            let p = plan.unwrap();
            &&& p.set_scissor == clip.has_area()
            &&& p.draws@.len() == calls@.len()
            &&& forall|k: int|
                0 <= k < calls@.len() ==> #[trigger] p.draws@[k] == (Draw {
                    pipeline_type: calls@[k].pipeline_type,
                    instance_count: calls@[k].instance_count,
                })
        },
{
    if calls.len() == 0 || viewport.width_px <= 0 || viewport.height_px <= 0 {
        return None;
    }
    let mut draws: Vec<Draw> = Vec::new();
    let mut i: usize = 0;
    while i < calls.len()
        invariant
            i <= calls.len(),
            draws@.len() == i,
            forall|k: int|
                0 <= k < i ==> #[trigger] draws@[k] == (Draw {
                    pipeline_type: calls@[k].pipeline_type,
                    instance_count: calls@[k].instance_count,
                }),
        decreases calls.len() - i,
    {
        draws.push(
            Draw { pipeline_type: calls[i].pipeline_type, instance_count: calls[i].instance_count },
        );
        i += 1;
    }
    Some(PaintPlan { set_scissor: clip.width_px > 0 && clip.height_px > 0, draws })
}

} // verus!
