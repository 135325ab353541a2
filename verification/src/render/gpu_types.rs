//! The data handed to the graphics backend, as plain values.

use vstd::prelude::*;

verus! {

/// A point of a flat chart, relative to the view's origin.
#[derive(Debug, Clone, Copy, PartialEq, Eq, Structural)]
pub struct Point2 {
    pub x: i64,
    pub y: i64,
}

/// A point of a scene in space, in the normalized cube.
#[derive(Debug, Clone, Copy, PartialEq, Eq, Structural)]
pub struct ScenePoint {
    pub x: i64,
    pub y: i64,
    pub z: i64,
}

/// A colour as red, green, blue, alpha, each `0 ..= 255`.
#[derive(Debug, Clone, Copy, PartialEq, Eq, Structural)]
pub struct Rgba {
    pub r: u8,
    pub g: u8,
    pub b: u8,
    pub a: u8,
}

/// The parameter block shared by the draw calls of one chart.
#[derive(Debug, Clone, Copy, PartialEq, Eq, Structural)]
pub struct PlotUniforms {
    /// Lower corner of the view window, relative to the view's origin.
    pub view_min: Point2,
    /// Upper corner of the view window, relative to the view's origin.
    pub view_max: Point2,
    /// Size of the plot area in pixels.
    pub resolution: Point2,
    /// Stroke width in pixels.
    pub line_width: i64,
    /// Marker radius in pixels.
    pub point_radius: i64,
    pub color: Rgba,
}

/// How a series is drawn.
#[derive(Debug, Clone, Copy, PartialEq, Eq, Structural)]
pub enum DrawMode {
    /// Segments from each point to the next.
    Lines,
    /// From each point first across, then up or down to the next.
    Step,
    /// One marker per point.
    Points,
}

/// One series, ready for drawing.
#[derive(Debug, Clone)]
pub struct SeriesGpuData {
    pub points: Vec<Point2>,
    pub color: Rgba,
    pub line_width: i64,
    pub point_radius: i64,
    pub draw_mode: DrawMode,
}

/// A series ready for drawing, as a mathematical value.
pub struct SeriesModel {
    pub points: Seq<Point2>,
    pub color: Rgba,
    pub line_width: i64,
    pub point_radius: i64,
    pub draw_mode: DrawMode,
}

impl View for SeriesGpuData {
    type V = SeriesModel;

    open spec fn view(&self) -> SeriesModel {
        SeriesModel {
            points: self.points@,
            color: self.color,
            line_width: self.line_width,
            point_radius: self.point_radius,
            draw_mode: self.draw_mode,
        }
    }
}

/// The grid lines of a chart, ready for drawing.
#[derive(Debug, Clone)]
pub struct GridGpuData {
    /// The end points of the lines: two per line.
    pub segments: Vec<Point2>,
    pub color: Rgba,
    pub line_width: i64,
}

/// The markers of one series of a scene in space.
#[derive(Debug, Clone)]
pub struct Scatter3DData {
    pub positions: Vec<ScenePoint>,
    pub color: Rgba,
    /// Marker radius in pixels.
    pub point_size: i64,
}

/// The segments of one series of a scene in space, or of its grid.
#[derive(Debug, Clone)]
pub struct Line3DData {
    /// The end points of the segments: two per segment.
    pub segments: Vec<ScenePoint>,
    pub color: Rgba,
    pub line_width: i64,
}

/// The per-call part of the parameter block of a scene in space; the camera
/// matrices are added where the scene is drawn.
#[derive(Debug, Clone, Copy, PartialEq, Eq, Structural)]
pub struct Plot3DUniforms {
    pub color: Rgba,
    /// Size of the viewport in pixels.
    pub resolution_width: u32,
    pub resolution_height: u32,
    /// Marker radius in pixels.
    pub point_size: i64,
    pub line_width: i64,
}

} // verus!
