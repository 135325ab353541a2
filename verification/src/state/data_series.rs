//! A data series and its display attributes.

use vstd::prelude::*;
use crate::fixed::{all_finite, slice_all_finite};

verus! {

/// Number of colours in the palette.
pub const PALETTE_LEN: usize = 12;

/// The palette colour at position `i`, as red, green, blue, alpha.
pub open spec fn palette_color(i: int) -> Seq<u8> {
    if i == 0 {
        seq![255u8, 0u8, 0u8, 255u8]
    } else if i == 1 {
        seq![0u8, 255u8, 0u8, 255u8]
    } else if i == 2 {
        seq![0u8, 0u8, 255u8, 255u8]
    } else if i == 3 {
        seq![255u8, 255u8, 0u8, 255u8]
    } else if i == 4 {
        seq![255u8, 0u8, 255u8, 255u8]
    } else if i == 5 {
        seq![0u8, 255u8, 255u8, 255u8]
    } else if i == 6 {
        seq![255u8, 165u8, 0u8, 255u8]
    } else if i == 7 {
        seq![128u8, 0u8, 128u8, 255u8]
    } else if i == 8 {
        seq![0u8, 128u8, 0u8, 255u8]
    } else if i == 9 {
        seq![0u8, 0u8, 128u8, 255u8]
    } else if i == 10 {
        seq![255u8, 192u8, 203u8, 255u8]
    } else {
        seq![165u8, 42u8, 42u8, 255u8]
    }
}

/// The colour of the `index`-th series of a graph; the palette repeats.
pub fn color_for_index(index: usize) -> (c: [u8; 4])
    ensures
        c@ == palette_color((index % PALETTE_LEN) as int),
{
    let i = index % PALETTE_LEN;
    let c: [u8; 4] = if i == 0 {
        [255, 0, 0, 255]
    } else if i == 1 {
        [0, 255, 0, 255]
    } else if i == 2 {
        [0, 0, 255, 255]
    } else if i == 3 {
        [255, 255, 0, 255]
    } else if i == 4 {
        [255, 0, 255, 255]
    } else if i == 5 {
        [0, 255, 255, 255]
    } else if i == 6 {
        [255, 165, 0, 255]
    } else if i == 7 {
        [128, 0, 128, 255]
    } else if i == 8 {
        [0, 128, 0, 255]
    } else if i == 9 {
        [0, 0, 128, 255]
    } else if i == 10 {
        [255, 192, 203, 255]
    } else {
        [165, 42, 42, 255]
    };
    assert(c@ =~= palette_color(i as int));
    c
}

/// How the points of a series are joined.
#[derive(Debug, Clone, Copy, PartialEq, Eq, Structural)]
pub enum InterpolationMode {
    Linear,
    Step,
    Points,
}

impl Default for InterpolationMode {
    fn default() -> (m: InterpolationMode)
        ensures
            m == InterpolationMode::Linear,
    {
        InterpolationMode::Linear
    }
}

/// The name of an interpolation mode in a menu.
pub open spec fn interpolation_label(m: InterpolationMode) -> Seq<char> {
    match m {
        InterpolationMode::Linear => "Linear"@,
        InterpolationMode::Step => "Step"@,
        InterpolationMode::Points => "Points Only"@,
    }
}

impl InterpolationMode {
    pub fn label(&self) -> (s: &'static str)
        ensures
            s@ == interpolation_label(*self),
    {
        match self {
            InterpolationMode::Linear => "Linear",
            InterpolationMode::Step => "Step",
            InterpolationMode::Points => "Points Only",
        }
    }
}

/// Whether a graph is drawn as a flat chart or as a scene in space.
#[derive(Debug, Clone, Copy, PartialEq, Eq, Structural)]
pub enum PlotMode {
    Plot2D,
    Plot3D,
}

impl Default for PlotMode {
    fn default() -> (m: PlotMode)
        ensures
            m == PlotMode::Plot2D,
    {
        PlotMode::Plot2D
    }
}

/// Hands out the next identifier of a counter and advances it; the counter
/// wraps around after the largest identifier.
pub fn next_series_id(counter: &mut u64) -> (id: u64)
    ensures
        id == *old(counter),
        *final(counter) == if *old(counter) == u64::MAX {
            0
        } else {
            (*old(counter) + 1) as u64
        },
{
    let id = *counter;
    *counter = if id == u64::MAX {
        0
    } else {
        id + 1
    };
    id
}

/// Default stroke width of a new series: two pixels.
pub const DEFAULT_LINE_WIDTH: i64 = 2_000_000;

/// One data series: parallel coordinate vectors and how to draw them.
pub struct DataSeries {
    pub id: u64,
    pub label: String,
    pub x: Vec<i64>,
    pub y: Vec<i64>,
    /// Third coordinate for plots in space; empty for a flat series.
    pub z: Vec<i64>,
    pub color: [u8; 4],
    pub unit: String,
    pub interpolation: InterpolationMode,
    pub show_dots: bool,
    pub visible: bool,
    /// Stroke width in pixels.
    pub line_width: i64,
    pub downsampled_x: Vec<i64>,
    pub downsampled_y: Vec<i64>,
    pub needs_resample: bool,
}

impl DataSeries {
    /// Whether the coordinate vectors are parallel and hold finite values only.
    pub open spec fn well_formed(&self) -> bool {
        &&& self.x.len() == self.y.len()
        &&& (self.z.len() == 0 || self.z.len() == self.x.len())
        &&& all_finite(self.x@)
        &&& all_finite(self.y@)
        &&& all_finite(self.z@)
    }

    /// Checks [`DataSeries::well_formed`].
    pub fn is_well_formed(&self) -> (r: bool)
        ensures
            r == self.well_formed(),
    {
        self.x.len() == self.y.len() && (self.z.len() == 0 || self.z.len() == self.x.len())
            && slice_all_finite(self.x.as_slice()) && slice_all_finite(self.y.as_slice())
            && slice_all_finite(self.z.as_slice())
    }

    /// A flat series with the default display attributes.
    pub fn new(id: u64, label: String, x: Vec<i64>, y: Vec<i64>, color: [u8; 4], unit: String) -> (s:
        DataSeries)
        ensures
            s.id == id,
            s.label == label,
            s.x == x,
            s.y == y,
            s.z@.len() == 0,
            s.color == color,
            s.unit == unit,
            s.interpolation == InterpolationMode::Linear,
            s.show_dots,
            s.visible,
            s.line_width == DEFAULT_LINE_WIDTH,
            s.downsampled_x@.len() == 0,
            s.downsampled_y@.len() == 0,
            s.needs_resample,
    {
        DataSeries {
            id,
            label,
            x,
            y,
            z: Vec::new(),
            color,
            unit,
            interpolation: InterpolationMode::Linear,
            show_dots: true,
            visible: true,
            line_width: DEFAULT_LINE_WIDTH,
            downsampled_x: Vec::new(),
            downsampled_y: Vec::new(),
            needs_resample: true,
        }
    }

    /// A series in space with the default display attributes.
    pub fn new_3d(
        id: u64,
        label: String,
        x: Vec<i64>,
        y: Vec<i64>,
        z: Vec<i64>,
        color: [u8; 4],
        unit: String,
    ) -> (s: DataSeries)
        ensures
            s.id == id,
            s.label == label,
            s.x == x,
            s.y == y,
            s.z == z,
            s.color == color,
            s.unit == unit,
            s.interpolation == InterpolationMode::Linear,
            s.show_dots,
            s.visible,
            s.line_width == DEFAULT_LINE_WIDTH,
            s.downsampled_x@.len() == 0,
            s.downsampled_y@.len() == 0,
            s.needs_resample,
    {
        DataSeries {
            id,
            label,
            x,
            y,
            z,
            color,
            unit,
            interpolation: InterpolationMode::Linear,
            show_dots: true,
            visible: true,
            line_width: DEFAULT_LINE_WIDTH,
            downsampled_x: Vec::new(),
            downsampled_y: Vec::new(),
            needs_resample: true,
        }
    }

    /// Whether the series has a third coordinate.
    pub fn has_z(&self) -> (r: bool)
        ensures
            r == (self.z@.len() > 0),
    {
        self.z.len() > 0
    }

    /// The colour as red, green, blue, alpha without premultiplication.
    pub fn color32(&self) -> (c: (u8, u8, u8, u8))
        ensures
            c == (self.color@[0], self.color@[1], self.color@[2], self.color@[3]),
    {
        (self.color[0], self.color[1], self.color[2], self.color[3])
    }

    pub fn point_count(&self) -> (n: usize)
        ensures
            n == self.x@.len(),
    {
        self.x.len()
    }
}

} // verus!
