//! What a graph panel computes for one frame of a flat chart: the order and
//! ranges of its units, its layout, and the data handed to the draw calls.

use vstd::prelude::*;
use crate::fixed::{div_floor, finite, is_finite, narrow, narrow_wide, scaled_quotient, COORD_MAX,
    NAN, SCALE};
use crate::processing::downsampling::{downsample_for_view, gather, lttb_indices, view_slice};
use crate::render::extent::{finite_high, finite_low, higher, lower, merge_high, merge_low,
    slice_extent, lemma_low_le_high, lemma_finite_low, lemma_finite_high};
use crate::render::gpu_types::{DrawMode, GridGpuData, PlotUniforms, Point2, Rgba, SeriesGpuData};
use crate::render::grid::{compute_grid_lines, grid_lines};
use crate::render::plot_interaction::{PlotViewState, ScreenRect};
use crate::state::data_series::{DataSeries, InterpolationMode};
use crate::state::graph_state::GraphState;
use crate::state::theme::Theme;
use crate::text::same_text;

verus! {

/// What the user asked of a graph panel in one frame.
#[derive(Debug, Clone, Copy, PartialEq, Eq, Structural)]
pub enum GraphAction {
    Idle,
    Close,
    AddData,
    OpenSettings,
    ToggleSync,
    ToggleTableView,
    CenterView,
    ExportCsv,
    ExportImageSave,
    ExportImageClipboard,
}

/// Series longer than this are downsampled to this many points before drawing.
pub const POINT_BUDGET: usize = 10000;

/// The `y` range that the series of one unit are scaled into `0 ..= 1` by.
#[derive(Debug, Clone, Copy, PartialEq, Eq, Structural)]
pub struct UnitRange {
    pub y_min: i64,
    pub y_max: i64,
}

/// The position of `y` within `y_min .. y_max` as a fraction: a half for a
/// range without span, not a number where the range or `y` is not finite.
pub open spec fn normalized(y_min: i64, y_max: i64, y: i64) -> i64 {
    if !finite(y_min as int) || !finite(y_max as int) || !finite(y as int) {
        NAN
    } else if y_max - y_min == 0 {
        (SCALE / 2) as i64
    } else {
        narrow(scaled_quotient(y - y_min, y_max - y_min))
    }
}

/// The value at fraction `n` of `y_min .. y_max`; not a number where the
/// range or `n` is not finite.
pub open spec fn denormalized(y_min: i64, y_max: i64, n: i64) -> i64 {
    if !finite(y_min as int) || !finite(y_max as int) || !finite(n as int) {
        NAN
    } else {
        narrow((n * (y_max - y_min)) / (SCALE as int) + y_min)
    }
}

impl UnitRange {
    /// Scales `y` into the range: `0` at its lower end, `1` at its upper.
    pub fn normalize(&self, y: i64) -> (n: i64)
        ensures
            n == normalized(self.y_min, self.y_max, y),
    {
        if !is_finite(self.y_min) || !is_finite(self.y_max) || !is_finite(y) {
            return NAN;
        }
        let span: i128 = self.y_max as i128 - self.y_min as i128;
        if span == 0 {
            return SCALE / 2;
        }
        let offset: i128 = y as i128 - self.y_min as i128;
        assert(-2 * COORD_MAX * SCALE <= offset * SCALE <= 2 * COORD_MAX * SCALE) by (nonlinear_arith)
            requires
                -2 * COORD_MAX <= offset <= 2 * COORD_MAX,
        ;
        let num: i128 = offset * (SCALE as i128);
        if span > 0 {
            narrow_wide(div_floor(num, span))
        } else {
            assert(-offset * SCALE == -(offset * SCALE)) by (nonlinear_arith);
            narrow_wide(div_floor(-num, -span))
        }
    }

    /// Scales a fraction of the range back into a value.
    pub fn denormalize(&self, n: i64) -> (y: i64)
        ensures
            y == denormalized(self.y_min, self.y_max, n),
    {
        if !is_finite(self.y_min) || !is_finite(self.y_max) || !is_finite(n) {
            return NAN;
        }
        let span: i128 = self.y_max as i128 - self.y_min as i128;
        assert(-2 * COORD_MAX * COORD_MAX <= n * span <= 2 * COORD_MAX * COORD_MAX)
            by (nonlinear_arith)
            requires
                -COORD_MAX <= n <= COORD_MAX,
                -2 * COORD_MAX <= span <= 2 * COORD_MAX,
        ;
        let q = div_floor((n as i128) * span, SCALE as i128);
        narrow_wide(q + self.y_min as i128)
    }
}

// ---------------------------------------------------------------------------
// Units
// ---------------------------------------------------------------------------

/// The texts of a vector of strings.
pub open spec fn texts(v: Seq<String>) -> Seq<Seq<char>> {
    Seq::new(v.len(), |k: int| v[k]@)
}

/// The units of the shown ones among the first `upto` series, each once, in
/// the order in which they first occur.
pub open spec fn unit_order(series: Seq<DataSeries>, upto: int) -> Seq<Seq<char>>
    decreases upto,
{
    if upto <= 0 {
        Seq::empty()
    } else {
        let rest = unit_order(series, upto - 1);
        if series[upto - 1].visible && !rest.contains(series[upto - 1].unit@) {
            rest.push(series[upto - 1].unit@)
        } else {
            rest
        }
    }
}

/// The smallest finite `y` of the shown series with unit `unit`.
pub open spec fn unit_low(series: Seq<DataSeries>, unit: Seq<char>) -> Option<i64>
    decreases series.len(),
{
    if series.len() == 0 {
        None
    } else if series.last().visible && series.last().unit@ == unit {
        merge_low(unit_low(series.drop_last(), unit), finite_low(series.last().y@))
    } else {
        unit_low(series.drop_last(), unit)
    }
}

/// The largest finite `y` of the shown series with unit `unit`.
pub open spec fn unit_high(series: Seq<DataSeries>, unit: Seq<char>) -> Option<i64>
    decreases series.len(),
{
    if series.len() == 0 {
        None
    } else if series.last().visible && series.last().unit@ == unit {
        merge_high(unit_high(series.drop_last(), unit), finite_high(series.last().y@))
    } else {
        unit_high(series.drop_last(), unit)
    }
}

/// The margin around the data of one unit: a twentieth of the span, or one
/// unit for data without span.
pub open spec fn unit_margin(lo: int, hi: int) -> int {
    if hi - lo == 0 {
        SCALE as int
    } else {
        (hi - lo) / 20
    }
}

/// The range of one unit: its data with a margin on both sides; not a
/// number on both sides for a unit without finite data or with a range that
/// leaves the finite values.
pub open spec fn unit_range(series: Seq<DataSeries>, unit: Seq<char>) -> UnitRange {
    match (unit_low(series, unit), unit_high(series, unit)) {
        (Some(lo), Some(hi)) => UnitRange {
            y_min: narrow(lo - unit_margin(lo as int, hi as int)),
            y_max: narrow(hi + unit_margin(lo as int, hi as int)),
        },
        _ => UnitRange { y_min: NAN, y_max: NAN },
    }
}

/// Position of `unit` among the first `upto` of `units`; `upto` if it is not there.
pub open spec fn unit_position(units: Seq<Seq<char>>, unit: Seq<char>, upto: int) -> int
    decreases upto,
{
    if upto <= 0 {
        0
    } else {
        let p = unit_position(units, unit, upto - 1);
        if p < upto - 1 {
            p
        } else if units[upto - 1] == unit {
            upto - 1
        } else {
            upto
        }
    }
}

/// `unit_position` finds the unit exactly when it is among the units.
pub proof fn lemma_unit_position(units: Seq<Seq<char>>, unit: Seq<char>, upto: int)
    requires
        0 <= upto <= units.len(),
    ensures
        0 <= unit_position(units, unit, upto) <= upto,
        unit_position(units, unit, upto) < upto ==> units[unit_position(units, unit, upto)] == unit,
        unit_position(units, unit, upto) == upto ==> forall|k: int|
            0 <= k < upto ==> #[trigger] units[k] != unit,
    decreases upto,
{
    if upto > 0 {
        lemma_unit_position(units, unit, upto - 1);
    }
}

/// Position of `unit` in `units`, if it is there.
pub fn find_unit(units: &Vec<String>, unit: &str) -> (r: Option<usize>)
    ensures
        match r {
            Some(k) => k < units@.len() && k == unit_position(
                texts(units@),
                unit@,
                units@.len() as int,
            ) && units@[k as int]@ == unit@,
            None => unit_position(texts(units@), unit@, units@.len() as int) == units@.len()
                && !texts(units@).contains(unit@),
        },
{
    let mut k: usize = 0;
    while k < units.len()
        invariant
            k <= units.len(),
            unit_position(texts(units@), unit@, k as int) == k,
            forall|j: int| 0 <= j < k ==> #[trigger] texts(units@)[j] != unit@,
        decreases units.len() - k,
    {
        if same_text(units[k].as_str(), unit) {
            proof {
                lemma_unit_position_stable(texts(units@), unit@, k as int, units@.len() as int);
            }
            return Some(k);
        }
        k += 1;
    }
    None
}

/// Once found, the first matching unit stays the first as more units are considered.
pub proof fn lemma_unit_position_stable(units: Seq<Seq<char>>, unit: Seq<char>, k: int, upto: int)
    requires
        0 <= k < upto <= units.len(),
        unit_position(units, unit, k) == k,
        units[k] == unit,
    ensures
        unit_position(units, unit, upto) == k,
    decreases upto - k,
{
    if upto > k + 1 {
        lemma_unit_position_stable(units, unit, k, upto - 1);
    }
}

/// The units of the shown series, each once, in the order in which they
/// first occur.
pub fn collect_unit_order(graph: &GraphState) -> (units: Vec<String>)
    ensures
        texts(units@) == unit_order(graph.series@, graph.series@.len() as int),
{
    let mut units: Vec<String> = Vec::new();
    let mut i: usize = 0;
    assert(texts(units@) =~= unit_order(graph.series@, 0));
    while i < graph.series.len()
        invariant
            i <= graph.series.len(),
            texts(units@) == unit_order(graph.series@, i as int),
        decreases graph.series.len() - i,
    {
        let s = &graph.series[i];
        if s.visible {
            let found = find_unit(&units, s.unit.as_str());
            match found {
                Some(k) => {
                    assert(texts(units@)[k as int] == s.unit@);
                },
                None => {
                    let ghost before = texts(units@);
                    units.push(s.unit.clone());
                    assert(texts(units@) =~= before.push(s.unit@));
                },
            }
        }
        i += 1;
    }
    units
}

/// The smallest and largest finite `y` of the shown series with unit `unit`.
pub fn unit_extent(series: &[DataSeries], unit: &str) -> (r: (Option<i64>, Option<i64>))
    ensures
        r.0 == unit_low(series@, unit@),
        r.1 == unit_high(series@, unit@),
        r.0.is_some() == r.1.is_some(),
        r.0.is_some() ==> r.0.unwrap() <= r.1.unwrap() && finite(r.0.unwrap() as int) && finite(
            r.1.unwrap() as int,
        ),
{
    let mut lo: Option<i64> = None;
    let mut hi: Option<i64> = None;
    let mut i: usize = 0;
    while i < series.len()
        invariant
            i <= series.len(),
            lo == unit_low(series@.subrange(0, i as int), unit@),
            hi == unit_high(series@.subrange(0, i as int), unit@),
            lo.is_some() == hi.is_some(),
            lo.is_some() ==> lo.unwrap() <= hi.unwrap() && finite(lo.unwrap() as int) && finite(
                hi.unwrap() as int,
            ),
        decreases series.len() - i,
    {
        let s = &series[i];
        proof {
            let t = series@.subrange(0, i + 1);
            assert(t.drop_last() =~= series@.subrange(0, i as int));
            assert(t.last() == series@[i as int]);
            lemma_low_le_high(s.y@);
            lemma_finite_low(s.y@);
            lemma_finite_high(s.y@);
        }
        if s.visible && same_text(s.unit.as_str(), unit) {
            let (a, b) = slice_extent(s.y.as_slice());
            lo = lower(lo, a);
            hi = higher(hi, b);
        }
        i += 1;
    }
    assert(series@.subrange(0, series.len() as int) =~= series@);
    (lo, hi)
}

/// The range of each unit of `unit_order`, from the shown series of the graph.
pub fn compute_unit_ranges(graph: &GraphState, unit_order: &[String]) -> (ranges: Vec<UnitRange>)
    ensures
        ranges@.len() == unit_order@.len(),
        forall|k: int|
            0 <= k < ranges@.len() ==> #[trigger] ranges@[k] == unit_range(
                graph.series@,
                unit_order@[k]@,
            ),
{
    let mut ranges: Vec<UnitRange> = Vec::new();
    let mut k: usize = 0;
    while k < unit_order.len()
        invariant
            k <= unit_order.len(),
            ranges@.len() == k,
            forall|j: int|
                0 <= j < k ==> #[trigger] ranges@[j] == unit_range(graph.series@, unit_order@[j]@),
        decreases unit_order.len() - k,
    {
        let (lo, hi) = unit_extent(graph.series.as_slice(), unit_order[k].as_str());
        let range = match (lo, hi) {
            (Some(a), Some(b)) => {
                let span: i128 = b as i128 - a as i128;
                let pad: i128 = if span == 0 {
                    SCALE as i128
                } else {
                    span / 20
                };
                UnitRange { y_min: narrow_wide(a as i128 - pad), y_max: narrow_wide(b as i128 + pad) }
            },
            _ => UnitRange { y_min: NAN, y_max: NAN },
        };
        ranges.push(range);
        k += 1;
    }
    ranges
}

// ---------------------------------------------------------------------------
// The frame of a flat chart: model
// ---------------------------------------------------------------------------

/// The draw mode for an interpolation mode.
pub open spec fn draw_mode_of(m: InterpolationMode) -> DrawMode {
    match m {
        InterpolationMode::Linear => DrawMode::Lines,
        InterpolationMode::Step => DrawMode::Step,
        InterpolationMode::Points => DrawMode::Points,
    }
}

/// A colour from its four channels.
pub open spec fn rgba_of(c: Seq<u8>) -> Rgba {
    Rgba { r: c[0], g: c[1], b: c[2], a: c[3] }
}

/// The points with finite coordinates among the first `upto`, relative to
/// the origin `(x_off, y_off)`.
pub open spec fn offset_points(x: Seq<i64>, y: Seq<i64>, x_off: int, y_off: int, upto: int) -> Seq<
    Point2,
>
    decreases upto,
{
    if upto <= 0 {
        Seq::empty()
    } else {
        let rest = offset_points(x, y, x_off, y_off, upto - 1);
        if finite(x[upto - 1] as int) && finite(y[upto - 1] as int) {
            rest.push(Point2 { x: (x[upto - 1] - x_off) as i64, y: (y[upto - 1] - y_off) as i64 })
        } else {
            rest
        }
    }
}

/// Each value of `y` scaled into `range`.
pub open spec fn normalized_values(y: Seq<i64>, range: UnitRange) -> Seq<i64> {
    Seq::new(y.len(), |k: int| normalized(range.y_min, range.y_max, y[k]))
}

/// The `x` values of a series that a view draws: all of a series within
/// the point budget, else the visible part reduced to the budget.
pub open spec fn drawn_x(s: DataSeries, view: PlotViewState) -> Seq<i64> {
    if s.x@.len() > POINT_BUDGET {
        gather(
            view_slice(s.x@, s.x@, view.x_min as int, view.x_max as int),
            lttb_indices(
                view_slice(s.x@, s.x@, view.x_min as int, view.x_max as int),
                view_slice(s.y@, s.x@, view.x_min as int, view.x_max as int),
                POINT_BUDGET as int,
            ),
        )
    } else {
        s.x@
    }
}

/// The `y` values that belong to [`drawn_x`].
pub open spec fn drawn_y(s: DataSeries, view: PlotViewState) -> Seq<i64> {
    if s.x@.len() > POINT_BUDGET {
        gather(
            view_slice(s.y@, s.x@, view.x_min as int, view.x_max as int),
            lttb_indices(
                view_slice(s.x@, s.x@, view.x_min as int, view.x_max as int),
                view_slice(s.y@, s.x@, view.x_min as int, view.x_max as int),
                POINT_BUDGET as int,
            ),
        )
    } else {
        s.y@
    }
}

/// The `y` values of a series as the chart plots them: scaled into the
/// range of the series' unit where the chart overlays several units.
pub open spec fn plotted_y(
    s: DataSeries,
    view: PlotViewState,
    units: Seq<Seq<char>>,
    ranges: Seq<UnitRange>,
) -> Seq<i64> {
    let p = unit_position(units, s.unit@, units.len() as int);
    if units.len() > 1 && p < units.len() {
        normalized_values(drawn_y(s, view), ranges[p])
    } else {
        drawn_y(s, view)
    }
}

/// The points of a series as handed to the draw calls: relative to the
/// lower corner of the view, so that their magnitudes stay small.
pub open spec fn series_points(
    s: DataSeries,
    view: PlotViewState,
    units: Seq<Seq<char>>,
    ranges: Seq<UnitRange>,
) -> Seq<Point2> {
    offset_points(
        drawn_x(s, view),
        plotted_y(s, view, units, ranges),
        view.x_min as int,
        view.y_min as int,
        drawn_x(s, view).len() as int,
    )
}

/// The primary draw data of a series.
pub open spec fn primary_model(s: DataSeries, points: Seq<Point2>) -> crate::render::gpu_types::SeriesModel {
    crate::render::gpu_types::SeriesModel {
        points,
        color: rgba_of(s.color@),
        line_width: s.line_width,
        point_radius: narrow(s.line_width + SCALE),
        draw_mode: draw_mode_of(s.interpolation),
    }
}

/// The marker overlay of a series that is drawn as lines or steps.
pub open spec fn overlay_model(s: DataSeries, points: Seq<Point2>) -> crate::render::gpu_types::SeriesModel {
    crate::render::gpu_types::SeriesModel {
        points,
        color: rgba_of(s.color@),
        line_width: s.line_width,
        point_radius: narrow(s.line_width + SCALE / 2),
        draw_mode: DrawMode::Points,
    }
}

/// Whether a series gets a marker overlay besides its lines or steps.
pub open spec fn wants_overlay(s: DataSeries, point_count: int) -> bool {
    s.show_dots && s.interpolation != InterpolationMode::Points && point_count < POINT_BUDGET
}

/// The draw data of the first `upto` series, in paint order: for each shown,
/// non-empty series its primary data and, where wanted, its marker overlay.
pub open spec fn planned_series(
    series: Seq<DataSeries>,
    view: PlotViewState,
    units: Seq<Seq<char>>,
    ranges: Seq<UnitRange>,
    upto: int,
) -> Seq<crate::render::gpu_types::SeriesModel>
    decreases upto,
{
    if upto <= 0 {
        Seq::empty()
    } else {
        let rest = planned_series(series, view, units, ranges, upto - 1);
        let s = series[upto - 1];
        if s.visible && s.x@.len() > 0 {
            let points = series_points(s, view, units, ranges);
            if wants_overlay(s, points.len() as int) {
                rest.push(primary_model(s, points)).push(overlay_model(s, points))
            } else {
                rest.push(primary_model(s, points))
            }
        } else {
            rest
        }
    }
}

/// The models of a vector of series data.
pub open spec fn series_models(data: Seq<SeriesGpuData>) -> Seq<crate::render::gpu_types::SeriesModel> {
    Seq::new(data.len(), |k: int| data[k]@)
}

/// The end points of the vertical grid lines for the first `upto` lines of
/// `lines`: for each major line its lower and its upper end.
pub open spec fn vertical_segments(lines: Seq<(i64, bool)>, view: PlotViewState, upto: int) -> Seq<
    Point2,
>
    decreases upto,
{
    if upto <= 0 {
        Seq::empty()
    } else {
        let rest = vertical_segments(lines, view, upto - 1);
        if lines[upto - 1].1 {
            rest.push(Point2 { x: (lines[upto - 1].0 - view.x_min) as i64, y: 0 }).push(
                Point2 {
                    x: (lines[upto - 1].0 - view.x_min) as i64,
                    y: (view.y_max - view.y_min) as i64,
                },
            )
        } else {
            rest
        }
    }
}

/// The end points of the horizontal grid lines for the first `upto` lines
/// of `lines`: for each major line its left and its right end.
pub open spec fn horizontal_segments(lines: Seq<(i64, bool)>, view: PlotViewState, upto: int) -> Seq<
    Point2,
>
    decreases upto,
{
    if upto <= 0 {
        Seq::empty()
    } else {
        let rest = horizontal_segments(lines, view, upto - 1);
        if lines[upto - 1].1 {
            rest.push(Point2 { x: 0, y: (lines[upto - 1].0 - view.y_min) as i64 }).push(
                Point2 {
                    x: (view.x_max - view.x_min) as i64,
                    y: (lines[upto - 1].0 - view.y_min) as i64,
                },
            )
        } else {
            rest
        }
    }
}

/// The grid colour of a theme as a colour value.
pub open spec fn grid_rgba_of(theme: Theme) -> Rgba {
    let c = crate::state::theme::grid_rgba(theme);
    Rgba { r: c.0, g: c.1, b: c.2, a: c.3 }
}

/// The parameter block that all draw calls of a chart start from.
pub open spec fn base_uniforms(view: PlotViewState, rect: ScreenRect) -> PlotUniforms {
    PlotUniforms {
        view_min: Point2 { x: 0, y: 0 },
        view_max: Point2 { x: (view.x_max - view.x_min) as i64, y: (view.y_max - view.y_min) as i64 },
        resolution: Point2 { x: rect.width, y: rect.height },
        line_width: (2 * SCALE) as i64,
        point_radius: (3 * SCALE) as i64,
        color: Rgba { r: 255, g: 255, b: 255, a: 255 },
    }
}

// ---------------------------------------------------------------------------
// The frame of a flat chart: executable code
// ---------------------------------------------------------------------------

/// Everything that one frame of a flat chart hands to drawing.
pub struct PlotFrame {
    pub series_data: Vec<SeriesGpuData>,
    pub grid_data: GridGpuData,
    pub uniforms_base: PlotUniforms,
    /// The grid lines along `x` and `y`, for tick labels.
    pub x_grid: Vec<(i64, bool)>,
    pub y_grid: Vec<(i64, bool)>,
    pub unit_order: Vec<String>,
    pub unit_ranges: Vec<UnitRange>,
}

fn offset_pairs(x: &[i64], y: &[i64], x_off: i64, y_off: i64) -> (out: Vec<Point2>)
    requires
        x.len() == y.len(),
        finite(x_off as int),
        finite(y_off as int),
    ensures
        out@ == offset_points(x@, y@, x_off as int, y_off as int, x@.len() as int),
{
    let mut out: Vec<Point2> = Vec::new();
    let mut i: usize = 0;
    while i < x.len()
        invariant
            i <= x.len(),
            x.len() == y.len(),
            finite(x_off as int),
            finite(y_off as int),
            out@ == offset_points(x@, y@, x_off as int, y_off as int, i as int),
        decreases x.len() - i,
    {
        if is_finite(x[i]) && is_finite(y[i]) {
            out.push(Point2 { x: x[i] - x_off, y: y[i] - y_off });
        }
        i += 1;
    }
    out
}

fn normalize_all(y: &Vec<i64>, range: UnitRange) -> (out: Vec<i64>)
    ensures
        out@ == normalized_values(y@, range),
{
    let mut out: Vec<i64> = Vec::new();
    let mut i: usize = 0;
    while i < y.len()
        invariant
            i <= y.len(),
            out@.len() == i,
            forall|k: int| 0 <= k < i ==> out@[k] == normalized(range.y_min, range.y_max, y@[k]),
        decreases y.len() - i,
    {
        out.push(range.normalize(y[i]));
        i += 1;
    }
    assert(out@ =~= normalized_values(y@, range));
    out
}

fn rgba_from(c: &[u8; 4]) -> (r: Rgba)
    ensures
        r == rgba_of(c@),
{
    Rgba { r: c[0], g: c[1], b: c[2], a: c[3] }
}

fn mode_for(m: InterpolationMode) -> (d: DrawMode)
    ensures
        d == draw_mode_of(m),
{
    match m {
        InterpolationMode::Linear => DrawMode::Lines,
        InterpolationMode::Step => DrawMode::Step,
        InterpolationMode::Points => DrawMode::Points,
    }
}

fn copy_values(v: &Vec<i64>) -> (out: Vec<i64>)
    ensures
        out@ == v@,
{
    let mut out: Vec<i64> = Vec::new();
    let mut i: usize = 0;
    while i < v.len()
        invariant
            i <= v.len(),
            out@ == v@.subrange(0, i as int),
        decreases v.len() - i,
    {
        out.push(v[i]);
        assert(out@ =~= v@.subrange(0, i + 1));
        i += 1;
    }
    assert(v@.subrange(0, v@.len() as int) =~= v@);
    out
}

fn copy_points(points: &Vec<Point2>) -> (out: Vec<Point2>)
    ensures
        out@ == points@,
{
    let mut out: Vec<Point2> = Vec::new();
    let mut i: usize = 0;
    while i < points.len()
        invariant
            i <= points.len(),
            out@ == points@.subrange(0, i as int),
        decreases points.len() - i,
    {
        out.push(points[i]);
        assert(out@ =~= points@.subrange(0, i + 1));
        i += 1;
    }
    assert(points@.subrange(0, points@.len() as int) =~= points@);
    out
}

/// The points of one series as handed to the draw calls.
pub fn build_series_points(
    s: &DataSeries,
    view: &PlotViewState,
    unit_order: &Vec<String>,
    unit_ranges: &Vec<UnitRange>,
) -> (points: Vec<Point2>)
    requires
        s.well_formed(),
        view.well_formed(),
        unit_ranges@.len() == unit_order@.len(),
    ensures
        points@ == series_points(*s, *view, texts(unit_order@), unit_ranges@),
{
    let (plot_x, plot_y) = if s.x.len() > POINT_BUDGET {
        downsample_for_view(s.x.as_slice(), s.y.as_slice(), view.x_min, view.x_max, POINT_BUDGET)
    } else {
        (copy_values(&s.x), copy_values(&s.y))
    };
    let plot_y = if unit_order.len() > 1 {
        match find_unit(unit_order, s.unit.as_str()) {
            Some(idx) => normalize_all(&plot_y, unit_ranges[idx]),
            None => plot_y,
        }
    } else {
        plot_y
    };
    offset_pairs(plot_x.as_slice(), plot_y.as_slice(), view.x_min, view.y_min)
}

/// The draw data of the series of a graph, in paint order: for each shown,
/// non-empty series its lines, steps or markers and, where markers are
/// wanted besides lines or steps, a marker overlay.
pub fn build_series_data(
    series: &[DataSeries],
    view: &PlotViewState,
    unit_order: &Vec<String>,
    unit_ranges: &Vec<UnitRange>,
) -> (data: Vec<SeriesGpuData>)
    requires
        forall|k: int| 0 <= k < series@.len() ==> (#[trigger] series@[k]).well_formed(),
        view.well_formed(),
        unit_ranges@.len() == unit_order@.len(),
    ensures
        series_models(data@) == planned_series(
            series@,
            *view,
            texts(unit_order@),
            unit_ranges@,
            series@.len() as int,
        ),
{
    let mut data: Vec<SeriesGpuData> = Vec::new();
    let mut i: usize = 0;
    assert(series_models(data@) =~= planned_series(series@, *view, texts(unit_order@), unit_ranges@, 0));
    while i < series.len()
        invariant
            i <= series.len(),
            forall|k: int| 0 <= k < series@.len() ==> (#[trigger] series@[k]).well_formed(),
            view.well_formed(),
            unit_ranges@.len() == unit_order@.len(),
            series_models(data@) == planned_series(
                series@,
                *view,
                texts(unit_order@),
                unit_ranges@,
                i as int,
            ),
        decreases series.len() - i,
    {
        let s = &series[i];
        if s.visible && s.x.len() > 0 {
            let ghost before = series_models(data@);
            let points = build_series_points(s, view, unit_order, unit_ranges);
            let color = rgba_from(&s.color);
            let overlay = s.show_dots && s.interpolation != InterpolationMode::Points && points.len()
                < POINT_BUDGET;
            let primary = SeriesGpuData {
                points: copy_points(&points),
                color,
                line_width: s.line_width,
                point_radius: narrow_wide(s.line_width as i128 + SCALE as i128),
                draw_mode: mode_for(s.interpolation),
            };
            data.push(primary);
            assert(series_models(data@) =~= before.push(primary_model(*s, points@)));
            if overlay {
                let dots = SeriesGpuData {
                    points,
                    color,
                    line_width: s.line_width,
                    point_radius: narrow_wide(s.line_width as i128 + (SCALE / 2) as i128),
                    draw_mode: DrawMode::Points,
                };
                let ghost dots_model = dots@;
                data.push(dots);
                assert(series_models(data@) =~= before.push(primary_model(*s, dots_model.points)).push(
                    overlay_model(*s, dots_model.points),
                ));
            }
        }
        i += 1;
    }
    data
}

/// The end points of the major grid lines of a chart, relative to the lower
/// corner of the view: first the vertical lines, then the horizontal ones.
pub fn build_grid_segments(x_grid: &Vec<(i64, bool)>, y_grid: &Vec<(i64, bool)>, view: &PlotViewState) -> (segments:
    Vec<Point2>)
    requires
        view.well_formed(),
        forall|k: int| 0 <= k < x_grid@.len() ==> finite((#[trigger] x_grid@[k]).0 as int),
        forall|k: int| 0 <= k < y_grid@.len() ==> finite((#[trigger] y_grid@[k]).0 as int),
    ensures
        segments@ == vertical_segments(x_grid@, *view, x_grid@.len() as int) + horizontal_segments(
            y_grid@,
            *view,
            y_grid@.len() as int,
        ),
{
    let mut segments: Vec<Point2> = Vec::new();
    let width = view.x_max - view.x_min;
    let height = view.y_max - view.y_min;
    let mut i: usize = 0;
    while i < x_grid.len()
        invariant
            i <= x_grid.len(),
            view.well_formed(),
            width == view.x_max - view.x_min,
            height == view.y_max - view.y_min,
            forall|k: int| 0 <= k < x_grid@.len() ==> finite((#[trigger] x_grid@[k]).0 as int),
            segments@ == vertical_segments(x_grid@, *view, i as int),
        decreases x_grid.len() - i,
    {
        let line = x_grid[i];
        if line.1 {
            assert(finite(x_grid@[i as int].0 as int));
            let x = line.0 - view.x_min;
            segments.push(Point2 { x, y: 0 });
            segments.push(Point2 { x, y: height });
        }
        i += 1;
    }
    let ghost vertical = segments@;
    let mut j: usize = 0;
    assert(segments@ =~= vertical + horizontal_segments(y_grid@, *view, 0));
    while j < y_grid.len()
        invariant
            j <= y_grid.len(),
            view.well_formed(),
            width == view.x_max - view.x_min,
            height == view.y_max - view.y_min,
            forall|k: int| 0 <= k < y_grid@.len() ==> finite((#[trigger] y_grid@[k]).0 as int),
            segments@ == vertical + horizontal_segments(y_grid@, *view, j as int),
        decreases y_grid.len() - j,
    {
        let line = y_grid[j];
        let ghost before = horizontal_segments(y_grid@, *view, j as int);
        if line.1 {
            assert(finite(y_grid@[j as int].0 as int));
            let y = line.0 - view.y_min;
            segments.push(Point2 { x: 0, y });
            segments.push(Point2 { x: width, y });
            assert(segments@ =~= vertical + before.push(Point2 { x: 0, y }).push(
                Point2 { x: width, y },
            ));
        }
        j += 1;
    }
    segments
}

/// Builds everything that one frame of a flat chart hands to drawing: the
/// grid lines of both axes, the major ones as segments, the draw data of
/// the series, and the parameter block. All coordinates are relative to the
/// lower corner of the view.
pub fn build_plot_frame(graph: &GraphState, plot_rect: ScreenRect, theme: Theme) -> (frame: PlotFrame)
    requires
        graph.plot_view.well_formed(),
        forall|k: int| 0 <= k < graph.series@.len() ==> (#[trigger] graph.series@[k]).well_formed(),
    ensures
        texts(frame.unit_order@) == unit_order(graph.series@, graph.series@.len() as int),
        frame.unit_ranges@.len() == frame.unit_order@.len(),
        forall|k: int|
            0 <= k < frame.unit_ranges@.len() ==> #[trigger] frame.unit_ranges@[k] == unit_range(
                graph.series@,
                frame.unit_order@[k]@,
            ),
        frame.x_grid@ == grid_lines(graph.plot_view.x_min as int, graph.plot_view.x_max as int),
        frame.y_grid@ == grid_lines(graph.plot_view.y_min as int, graph.plot_view.y_max as int),
        frame.grid_data.segments@ == vertical_segments(
            frame.x_grid@,
            graph.plot_view,
            frame.x_grid@.len() as int,
        ) + horizontal_segments(frame.y_grid@, graph.plot_view, frame.y_grid@.len() as int),
        frame.grid_data.color == grid_rgba_of(theme),
        frame.grid_data.line_width == SCALE,
        frame.uniforms_base == base_uniforms(graph.plot_view, plot_rect),
        series_models(frame.series_data@) == planned_series(
            graph.series@,
            graph.plot_view,
            texts(frame.unit_order@),
            frame.unit_ranges@,
            graph.series@.len() as int,
        ),
{
    let view = graph.plot_view;
    let unit_order = collect_unit_order(graph);
    let unit_ranges = compute_unit_ranges(graph, unit_order.as_slice());
    let x_grid = compute_grid_lines(view.x_min, view.x_max);
    let y_grid = compute_grid_lines(view.y_min, view.y_max);
    let segments = build_grid_segments(&x_grid, &y_grid, &view);
    let c = theme.grid_color();
    let grid_data = GridGpuData {
        segments,
        color: Rgba { r: c.0, g: c.1, b: c.2, a: c.3 },
        line_width: SCALE,
    };
    let series_data = build_series_data(graph.series.as_slice(), &view, &unit_order, &unit_ranges);
    let uniforms_base = PlotUniforms {
        view_min: Point2 { x: 0, y: 0 },
        view_max: Point2 { x: view.x_max - view.x_min, y: view.y_max - view.y_min },
        resolution: Point2 { x: plot_rect.width, y: plot_rect.height },
        line_width: 2 * SCALE,
        point_radius: 3 * SCALE,
        color: Rgba { r: 255, g: 255, b: 255, a: 255 },
    };
    PlotFrame { series_data, grid_data, uniforms_base, x_grid, y_grid, unit_order, unit_ranges }
}

// ---------------------------------------------------------------------------
// The view at the start of a frame, and the layout
// ---------------------------------------------------------------------------

/// The view that a frame draws: fitted to the data when a fit is pending or
/// none was ever made, else with `y` rescaled when the graph asks for that,
/// else as it is. A chart that overlays several units takes the normalized
/// `y` range in place of the data's.
pub open spec fn view_for_frame(
    view: PlotViewState,
    series: Seq<DataSeries>,
    auto_scale_y: bool,
    multi_unit: bool,
) -> PlotViewState {
    if view.auto_fit || !view.initialized {
        let fitted = if multi_unit {
            view.fitted_normalized(series)
        } else {
            view.fitted(series)
        };
        PlotViewState { auto_fit: false, ..fitted }
    } else if auto_scale_y {
        if multi_unit {
            PlotViewState {
                y_min: crate::render::plot_interaction::NORMALIZED_Y_MIN,
                y_max: crate::render::plot_interaction::NORMALIZED_Y_MAX,
                ..view
            }
        } else {
            view.y_scaled(series)
        }
    } else {
        view
    }
}

/// Brings the view of a graph up to date at the start of a frame.
pub fn prepare_view(graph: &mut GraphState, multi_unit: bool)
    ensures
        crate::state::app_state::same_but_view(*final(graph), *old(graph)),
        final(graph).plot_view == view_for_frame(
            old(graph).plot_view,
            old(graph).series@,
            old(graph).auto_scale_y,
            multi_unit,
        ),
{
    if graph.plot_view.auto_fit || !graph.plot_view.initialized {
        if multi_unit {
            graph.plot_view.fit_to_data_normalized(graph.series.as_slice());
        } else {
            graph.plot_view.fit_to_data(graph.series.as_slice());
        }
        graph.plot_view.auto_fit = false;
    } else if graph.auto_scale_y {
        if multi_unit {
            graph.plot_view.auto_scale_y_normalized();
        } else {
            graph.plot_view.auto_scale_y_to_visible(graph.series.as_slice());
        }
    }
}

/// Margin left of the plot area, for the `y` axis: 70 pixels.
pub const LEFT_MARGIN: i64 = 70_000_000;

/// Margin below the plot area, for the `x` axis: 40 pixels.
pub const BOTTOM_MARGIN: i64 = 40_000_000;

/// Margin above the plot area: 10 pixels.
pub const TOP_MARGIN: i64 = 10_000_000;

/// Margin right of the plot area of a chart with one unit: 20 pixels.
pub const RIGHT_MARGIN: i64 = 20_000_000;

/// Width of each further `y` axis right of the plot area: 70 pixels.
pub const AXIS_WIDTH: i64 = 70_000_000;

/// Smallest height of the plot area: 100 pixels.
pub const MIN_PLOT_HEIGHT: i64 = 100_000_000;

/// The margin right of the plot area: room for one axis per unit beyond the
/// first where the chart overlays several units.
pub open spec fn right_margin(unit_count: int) -> int {
    if unit_count > 1 {
        AXIS_WIDTH * (unit_count - 1) + AXIS_WIDTH
    } else {
        RIGHT_MARGIN as int
    }
}

/// The height of the plot area inside a panel of the given height.
pub open spec fn plot_height(area_height: int) -> int {
    if area_height - BOTTOM_MARGIN - TOP_MARGIN < MIN_PLOT_HEIGHT {
        MIN_PLOT_HEIGHT as int
    } else {
        area_height - BOTTOM_MARGIN - TOP_MARGIN
    }
}

/// The rectangles of a chart: all of it, and the plot area inside its margins.
#[derive(Debug, Clone, Copy, PartialEq, Eq, Structural)]
pub struct PlotLayout {
    pub total: ScreenRect,
    pub plot: ScreenRect,
}

/// Lays out a chart whose upper left corner is at `(left, top)` and that
/// may take `available_width` and `area_height` pixels. Sizes that do not
/// fit the finite values are limited to them.
pub fn plot_layout(left: i64, top: i64, available_width: i64, area_height: i64, unit_count: usize) -> (layout:
    PlotLayout)
    ensures
        layout.total == (ScreenRect {
            left,
            top,
            width: available_width,
            height: crate::fixed::clamp_finite(plot_height(area_height as int) + BOTTOM_MARGIN
                + TOP_MARGIN) as i64,
        }),
        layout.plot == (ScreenRect {
            left: crate::fixed::clamp_finite(left + LEFT_MARGIN) as i64,
            top: crate::fixed::clamp_finite(top + TOP_MARGIN) as i64,
            width: crate::fixed::clamp_finite(
                available_width - LEFT_MARGIN - right_margin(unit_count as int),
            ) as i64,
            height: crate::fixed::clamp_finite(plot_height(area_height as int)) as i64,
        }),
{
    let inner: i128 = area_height as i128 - BOTTOM_MARGIN as i128 - TOP_MARGIN as i128;
    let height: i128 = if inner < MIN_PLOT_HEIGHT as i128 {
        MIN_PLOT_HEIGHT as i128
    } else {
        inner
    };
    let right: i128 = if unit_count > 1 {
        assert(0 <= AXIS_WIDTH * (unit_count - 1) <= AXIS_WIDTH * 0x1_0000_0000_0000_0000)
            by (nonlinear_arith)
            requires
                0 <= unit_count - 1 <= 0x1_0000_0000_0000_0000,
        ;
        (AXIS_WIDTH as i128) * ((unit_count - 1) as i128) + AXIS_WIDTH as i128
    } else {
        RIGHT_MARGIN as i128
    };
    PlotLayout {
        total: ScreenRect {
            left,
            top,
            width: available_width,
            height: crate::fixed::clamp_wide(height + BOTTOM_MARGIN as i128 + TOP_MARGIN as i128),
        },
        plot: ScreenRect {
            left: crate::fixed::clamp_wide(left as i128 + LEFT_MARGIN as i128),
            top: crate::fixed::clamp_wide(top as i128 + TOP_MARGIN as i128),
            width: crate::fixed::clamp_wide(available_width as i128 - LEFT_MARGIN as i128 - right),
            height: crate::fixed::clamp_wide(height),
        },
    }
}

// ---------------------------------------------------------------------------
// The table
// ---------------------------------------------------------------------------

/// The value of a table cell: column zero holds the `x` of the first
/// series, column `c` the `y` of series `c - 1`. Not a number where the
/// table has no such cell.
pub open spec fn table_value(series: Seq<DataSeries>, col: int, row: int) -> i64 {
    if col == 0 {
        if series.len() > 0 && 0 <= row < series[0].x@.len() {
            series[0].x@[row]
        } else {
            NAN
        }
    } else if 0 < col <= series.len() && 0 <= row < series[col - 1].y@.len() {
        series[col - 1].y@[row]
    } else {
        NAN
    }
}

/// The number of rows of the table: the length of the longest series.
pub open spec fn table_rows(series: Seq<DataSeries>, upto: int) -> int
    decreases upto,
{
    if upto <= 0 {
        0
    } else {
        let r = table_rows(series, upto - 1);
        if series[upto - 1].x@.len() > r {
            series[upto - 1].x@.len() as int
        } else {
            r
        }
    }
}

/// The value of a table cell.
pub fn get_table_value(graph: &GraphState, col: usize, row: usize) -> (v: i64)
    ensures
        v == table_value(graph.series@, col as int, row as int),
{
    if col == 0 {
        if graph.series.len() > 0 && row < graph.series[0].x.len() {
            graph.series[0].x[row]
        } else {
            NAN
        }
    } else if col <= graph.series.len() && row < graph.series[col - 1].y.len() {
        graph.series[col - 1].y[row]
    } else {
        NAN
    }
}

/// The number of rows of the table.
pub fn table_row_count(graph: &GraphState) -> (n: usize)
    ensures
        n == table_rows(graph.series@, graph.series@.len() as int),
{
    let mut n: usize = 0;
    let mut i: usize = 0;
    while i < graph.series.len()
        invariant
            i <= graph.series.len(),
            n == table_rows(graph.series@, i as int),
        decreases graph.series.len() - i,
    {
        if graph.series[i].x.len() > n {
            n = graph.series[i].x.len();
        }
        i += 1;
    }
    n
}

/// The key that rows are ordered by: the cell value for ascending order,
/// its mirror image for descending order.
pub open spec fn sort_key(value: i64, direction: crate::state::graph_state::SortDirection) -> i64 {
    match direction {
        crate::state::graph_state::SortDirection::Ascending => value,
        crate::state::graph_state::SortDirection::Descending => (-1 - value) as i64,
    }
}

/// Whether `order` lists the rows `0 .. rows` of the table by the given
/// sorting: by key, rows with equal keys in their own order; unsorted, the
/// rows in their own order.
pub open spec fn is_row_order(
    order: Seq<usize>,
    series: Seq<DataSeries>,
    sort: Option<crate::state::graph_state::TableSort>,
    rows: int,
) -> bool {
    &&& order.len() == rows
    &&& forall|k: int| 0 <= k < rows ==> (#[trigger] order[k]) < rows
    &&& forall|r: usize| r < rows ==> #[trigger] order.contains(r)
    &&& match sort {
        Some(s) => forall|j: int, k: int|
            0 <= j < k < rows ==> crate::processing::sorting::pair_le(
                (sort_key(table_value(series, s.column as int, order[j] as int), s.direction), #[trigger] order[j]),
                (sort_key(table_value(series, s.column as int, order[k] as int), s.direction), #[trigger] order[k]),
            ),
        None => forall|k: int| 0 <= k < rows ==> #[trigger] order[k] == k,
    }
}

/// The rows of the table in the order in which it shows them.
pub fn table_row_order(graph: &GraphState) -> (order: Vec<usize>)
    ensures
        is_row_order(
            order@,
            graph.series@,
            graph.table_sort,
            table_rows(graph.series@, graph.series@.len() as int),
        ),
{
    let rows = table_row_count(graph);
    let mut order: Vec<usize> = Vec::new();
    match graph.table_sort {
        None => {
            let mut r: usize = 0;
            while r < rows
                invariant
                    r <= rows,
                    order@.len() == r,
                    forall|k: int| 0 <= k < r ==> #[trigger] order@[k] == k,
                decreases rows - r,
            {
                order.push(r);
                r += 1;
            }
            assert forall|r: usize| r < rows implies #[trigger] order@.contains(r) by {
                assert(order@[r as int] == r);
            }
        },
        Some(sort) => {
            let mut pairs: Vec<(i64, usize)> = Vec::new();
            let mut r: usize = 0;
            while r < rows
                invariant
                    r <= rows,
                    pairs@.len() == r,
                    forall|k: int|
                        0 <= k < r ==> #[trigger] pairs@[k] == (
                            sort_key(table_value(graph.series@, sort.column as int, k), sort.direction),
                            k as usize,
                        ),
                decreases rows - r,
            {
                let v = get_table_value(graph, sort.column, r);
                let key = match sort.direction {
                    crate::state::graph_state::SortDirection::Ascending => v,
                    crate::state::graph_state::SortDirection::Descending => -1 - v,
                };
                pairs.push((key, r));
                r += 1;
            }
            let ghost before = pairs@;
            crate::processing::sorting::sort_pairs(&mut pairs);
            proof {
                before.to_multiset_ensures();
                pairs@.to_multiset_ensures();
            }
            let mut k: usize = 0;
            while k < pairs.len()
                invariant
                    k <= pairs.len(),
                    order@.len() == k,
                    forall|j: int| 0 <= j < k ==> #[trigger] order@[j] == pairs@[j].1,
                decreases pairs.len() - k,
            {
                order.push(pairs[k].1);
                k += 1;
            }
            proof {
                assert forall|j: int| 0 <= j < rows implies (#[trigger] order@[j]) < rows && pairs@[j]
                    == (
                    sort_key(
                        table_value(graph.series@, sort.column as int, order@[j] as int),
                        sort.direction,
                    ),
                    order@[j],
                ) by {
                    let e = pairs@[j];
                    assert(pairs@.contains(e));
                    vstd::seq_lib::to_multiset_contains(pairs@, e);
                    vstd::seq_lib::to_multiset_contains(before, e);
                    let i = choose|i: int| 0 <= i < before.len() && before[i] == e;
                    assert(before[i].1 == i);
                }
                assert forall|r: usize| r < rows implies #[trigger] order@.contains(r) by {
                    let e = before[r as int];
                    assert(before.contains(e));
                    vstd::seq_lib::to_multiset_contains(before, e);
                    vstd::seq_lib::to_multiset_contains(pairs@, e);
                    let i = choose|i: int| 0 <= i < pairs@.len() && pairs@[i] == e;
                    assert(order@[i] == r);
                }
                assert forall|j: int, k: int| 0 <= j < k < rows implies crate::processing::sorting::pair_le(
                    (
                        sort_key(
                            table_value(graph.series@, sort.column as int, order@[j] as int),
                            sort.direction,
                        ),
                        #[trigger] order@[j],
                    ),
                    (
                        sort_key(
                            table_value(graph.series@, sort.column as int, order@[k] as int),
                            sort.direction,
                        ),
                        #[trigger] order@[k],
                    ),
                ) by {
                    assert(crate::processing::sorting::pair_le(pairs@[j], pairs@[k]));
                }
            }
        },
    }
    order
}

// ---------------------------------------------------------------------------
// The point under the pointer
// ---------------------------------------------------------------------------

/// Series longer than this are searched only where the view shows them, if
/// their `x` values do not decrease.
pub const RANGE_SEARCH_MIN: usize = 1000;

/// The largest squared distance, as a fraction of the view, at which the
/// pointer picks a point: a thousandth.
pub const HOVER_THRESHOLD: i64 = 1_000_000_000;

/// The point of a chart that the pointer picks.
#[derive(Debug, Clone, Copy, PartialEq, Eq, Structural)]
pub struct HoverHit {
    /// Position of the series in the graph.
    pub series: usize,
    /// Position of the point in the series.
    pub point: usize,
    pub x: i64,
    /// The value of the point, in its own unit.
    pub y: i64,
    /// The value of the point as the chart plots it.
    pub plot_y: i64,
}

/// A candidate of the search: a point and its squared distance.
pub struct Candidate {
    pub distance: int,
    pub series: int,
    pub point: int,
}

/// The distance along one axis as a fraction of the view's span, limited to
/// one view span either way.
pub open spec fn axis_distance(v: int, pointer: int, span: int) -> int {
    let d = ((v - pointer) * SCALE) / span;
    if d < -SCALE {
        -SCALE as int
    } else if d > SCALE {
        SCALE as int
    } else {
        d
    }
}

/// The squared distance of a point from the pointer, each axis measured in
/// spans of the view.
pub open spec fn hover_distance(x: int, y: int, px: int, py: int, view: PlotViewState) -> int {
    let dx = axis_distance(x, px, view.x_max - view.x_min);
    let dy = axis_distance(y, py, view.y_max - view.y_min);
    dx * dx + dy * dy
}

/// The positions of a series among which the pointer's point is sought.
pub open spec fn search_range(x: Seq<i64>, view: PlotViewState) -> (int, int) {
    if x.len() > RANGE_SEARCH_MIN && crate::processing::downsampling::non_decreasing(x) {
        (
            crate::processing::downsampling::window_start(x, view.x_min as int),
            crate::processing::downsampling::window_end(x, view.x_max as int),
        )
    } else {
        (0, x.len() as int)
    }
}

/// The `y` of point `k` of a series as the chart plots it.
pub open spec fn plotted_value(s: DataSeries, units: Seq<Seq<char>>, ranges: Seq<UnitRange>, k: int) -> i64 {
    let p = unit_position(units, s.unit@, units.len() as int);
    if units.len() > 1 {
        normalized(ranges[p].y_min, ranges[p].y_max, s.y@[k])
    } else {
        s.y@[k]
    }
}

/// Whether the pointer can pick points of a series: it is shown, not empty,
/// and, where the chart overlays several units, its unit is among them.
pub open spec fn searchable(s: DataSeries, units: Seq<Seq<char>>) -> bool {
    s.visible && s.x@.len() > 0 && (units.len() > 1 ==> unit_position(
        units,
        s.unit@,
        units.len() as int,
    ) < units.len())
}

/// The best candidate after the points `start .. upto` of series `index`
/// were considered: a point with finite coordinates replaces the best so
/// far only if it is strictly closer.
pub open spec fn scan_points(
    s: DataSeries,
    index: int,
    units: Seq<Seq<char>>,
    ranges: Seq<UnitRange>,
    px: int,
    py: int,
    view: PlotViewState,
    start: int,
    upto: int,
    best: Option<Candidate>,
) -> Option<Candidate>
    decreases upto - start,
{
    if upto <= start {
        best
    } else {
        let prev = scan_points(s, index, units, ranges, px, py, view, start, upto - 1, best);
        let k = upto - 1;
        let yv = plotted_value(s, units, ranges, k);
        if finite(s.x@[k] as int) && finite(yv as int) {
            let d = hover_distance(s.x@[k] as int, yv as int, px, py, view);
            if prev.is_none() || d < prev.unwrap().distance {
                Some(Candidate { distance: d, series: index, point: k })
            } else {
                prev
            }
        } else {
            prev
        }
    }
}

/// The best candidate after the first `upto` series were considered.
pub open spec fn scan_series(
    series: Seq<DataSeries>,
    units: Seq<Seq<char>>,
    ranges: Seq<UnitRange>,
    px: int,
    py: int,
    view: PlotViewState,
    upto: int,
) -> Option<Candidate>
    decreases upto,
{
    if upto <= 0 {
        None
    } else {
        let prev = scan_series(series, units, ranges, px, py, view, upto - 1);
        let s = series[upto - 1];
        if searchable(s, units) {
            let r = search_range(s.x@, view);
            scan_points(s, upto - 1, units, ranges, px, py, view, r.0, r.1, prev)
        } else {
            prev
        }
    }
}

/// The point that the pointer picks: the best candidate, if it is closer
/// than the threshold and its series has a label.
pub open spec fn hover_pick(
    series: Seq<DataSeries>,
    units: Seq<Seq<char>>,
    ranges: Seq<UnitRange>,
    px: int,
    py: int,
    view: PlotViewState,
) -> Option<Candidate> {
    let best = scan_series(series, units, ranges, px, py, view, series.len() as int);
    if best.is_some() && best.unwrap().distance < HOVER_THRESHOLD && series[best.unwrap().series].label@.len()
        > 0 {
        best
    } else {
        None
    }
}

fn axis_distance_of(v: i64, pointer: i64, span: i128) -> (d: i128)
    requires
        finite(v as int),
        finite(pointer as int),
        1 <= span <= 2 * COORD_MAX,
    ensures
        d == axis_distance(v as int, pointer as int, span as int),
        -SCALE <= d <= SCALE,
{
    let offset: i128 = v as i128 - pointer as i128;
    assert(-2 * COORD_MAX * SCALE <= offset * SCALE <= 2 * COORD_MAX * SCALE) by (nonlinear_arith)
        requires
            -2 * COORD_MAX <= offset <= 2 * COORD_MAX,
    ;
    let q = div_floor(offset * (SCALE as i128), span);
    if q < -(SCALE as i128) {
        -(SCALE as i128)
    } else if q > SCALE as i128 {
        SCALE as i128
    } else {
        q
    }
}

fn hover_distance_of(x: i64, y: i64, px: i64, py: i64, view: &PlotViewState) -> (d: i128)
    requires
        finite(x as int),
        finite(y as int),
        finite(px as int),
        finite(py as int),
        view.well_formed(),
    ensures
        d == hover_distance(x as int, y as int, px as int, py as int, *view),
{
    let dx = axis_distance_of(x, px, view.x_max as i128 - view.x_min as i128);
    let dy = axis_distance_of(y, py, view.y_max as i128 - view.y_min as i128);
    assert(0 <= dx * dx <= SCALE * SCALE) by (nonlinear_arith)
        requires
            -SCALE <= dx <= SCALE,
    ;
    assert(0 <= dy * dy <= SCALE * SCALE) by (nonlinear_arith)
        requires
            -SCALE <= dy <= SCALE,
    ;
    dx * dx + dy * dy
}

/// The candidate that a running best of the search stands for.
pub open spec fn candidate_of(best: Option<(i128, usize, usize)>) -> Option<Candidate> {
    match best {
        Some(b) => Some(Candidate { distance: b.0 as int, series: b.1 as int, point: b.2 as int }),
        None => None,
    }
}

fn scan_range(
    s: &DataSeries,
    index: usize,
    unit_order: &Vec<String>,
    unit_ranges: &Vec<UnitRange>,
    px: i64,
    py: i64,
    view: &PlotViewState,
    start: usize,
    end: usize,
    best: Option<(i128, usize, usize)>,
) -> (r: Option<(i128, usize, usize)>)
    requires
        s.well_formed(),
        view.well_formed(),
        unit_ranges@.len() == unit_order@.len(),
        searchable(*s, texts(unit_order@)),
        start <= end <= s.x@.len(),
        finite(px as int),
        finite(py as int),
    ensures
        candidate_of(r) == scan_points(
            *s,
            index as int,
            texts(unit_order@),
            unit_ranges@,
            px as int,
            py as int,
            *view,
            start as int,
            end as int,
            candidate_of(best),
        ),
        r == best || (r.is_some() && r.unwrap().1 == index && start <= r.unwrap().2 < end),
{
    let ghost units = texts(unit_order@);
    let range: Option<UnitRange> = if unit_order.len() > 1 {
        match find_unit(unit_order, s.unit.as_str()) {
            Some(p) => Some(unit_ranges[p]),
            None => None,
        }
    } else {
        None
    };
    let ghost given = best;
    let mut best = best;
    let ghost entry = candidate_of(best);
    let mut k: usize = start;
    while k < end
        invariant
            start <= k <= end <= s.x@.len(),
            s.well_formed(),
            view.well_formed(),
            unit_ranges@.len() == unit_order@.len(),
            units == texts(unit_order@),
            unit_order@.len() <= 1 ==> range.is_none(),
            unit_order@.len() > 1 ==> range.is_some() && unit_position(
                units,
                s.unit@,
                units.len() as int,
            ) < units.len() && range.unwrap() == unit_ranges@[unit_position(
                units,
                s.unit@,
                units.len() as int,
            )],
            finite(px as int),
            finite(py as int),
            candidate_of(best) == scan_points(
                *s,
                index as int,
                units,
                unit_ranges@,
                px as int,
                py as int,
                *view,
                start as int,
                k as int,
                entry,
            ),
            best == given || (best.is_some() && best.unwrap().1 == index && start
                <= best.unwrap().2 < k),
        decreases end - k,
    {
        let xv = s.x[k];
        let yv = match range {
            Some(r) => r.normalize(s.y[k]),
            None => s.y[k],
        };
        if is_finite(xv) && is_finite(yv) {
            let d = hover_distance_of(xv, yv, px, py, view);
            let closer = match best {
                Some(b) => d < b.0,
                None => true,
            };
            if closer {
                best = Some((d, index, k));
            }
        }
        k += 1;
    }
    best
}

fn plotted_at(s: &DataSeries, unit_order: &Vec<String>, unit_ranges: &Vec<UnitRange>, k: usize) -> (v: i64)
    requires
        k < s.y@.len(),
        unit_ranges@.len() == unit_order@.len(),
        searchable(*s, texts(unit_order@)),
    ensures
        v == plotted_value(*s, texts(unit_order@), unit_ranges@, k as int),
{
    if unit_order.len() > 1 {
        match find_unit(unit_order, s.unit.as_str()) {
            Some(p) => unit_ranges[p].normalize(s.y[k]),
            None => s.y[k],
        }
    } else {
        s.y[k]
    }
}

fn is_searchable(s: &DataSeries, unit_order: &Vec<String>) -> (r: bool)
    ensures
        r == searchable(*s, texts(unit_order@)),
{
    s.visible && s.x.len() > 0 && (unit_order.len() <= 1 || find_unit(
        unit_order,
        s.unit.as_str(),
    ).is_some())
}

fn search_bounds(s: &DataSeries, view: &PlotViewState) -> (r: (usize, usize))
    requires
        view.well_formed(),
    ensures
        (r.0 as int, r.1 as int) == search_range(s.x@, *view),
        r.0 <= r.1 <= s.x@.len(),
{
    if s.x.len() > RANGE_SEARCH_MIN && crate::processing::downsampling::is_non_decreasing(
        s.x.as_slice(),
    ) {
        crate::processing::downsampling::visible_range(s.x.as_slice(), view.x_min, view.x_max)
    } else {
        (0, s.x.len())
    }
}

/// Finds the point that the pointer at data position `(px, py)` picks: of
/// all points of the searchable series the one closest to the pointer, the
/// first of several equally close ones, if it lies within the threshold.
pub fn find_hover_point(
    graph: &GraphState,
    px: i64,
    py: i64,
    unit_order: &Vec<String>,
    unit_ranges: &Vec<UnitRange>,
) -> (hit: Option<HoverHit>)
    requires
        graph.plot_view.well_formed(),
        forall|k: int| 0 <= k < graph.series@.len() ==> (#[trigger] graph.series@[k]).well_formed(),
        unit_ranges@.len() == unit_order@.len(),
        finite(px as int),
        finite(py as int),
    ensures
        ({
            let pick = hover_pick(
                graph.series@,
                texts(unit_order@),
                unit_ranges@,
                px as int,
                py as int,
                graph.plot_view,
            );
            match hit {
                Some(h) => {
                    &&& pick.is_some()
                    &&& h.series == pick.unwrap().series
                    &&& h.point == pick.unwrap().point
                    &&& h.series < graph.series@.len()
                    &&& h.point < graph.series@[h.series as int].x@.len()
                    &&& h.x == graph.series@[h.series as int].x@[h.point as int]
                    &&& h.y == graph.series@[h.series as int].y@[h.point as int]
                    &&& h.plot_y == plotted_value(
                        graph.series@[h.series as int],
                        texts(unit_order@),
                        unit_ranges@,
                        h.point as int,
                    )
                },
                None => pick.is_none(),
            }
        }),
{
    let view = graph.plot_view;
    let mut best: Option<(i128, usize, usize)> = None;
    let mut i: usize = 0;
    while i < graph.series.len()
        invariant
            i <= graph.series.len(),
            view == graph.plot_view,
            view.well_formed(),
            forall|k: int| 0 <= k < graph.series@.len() ==> (#[trigger] graph.series@[k]).well_formed(),
            unit_ranges@.len() == unit_order@.len(),
            finite(px as int),
            finite(py as int),
            candidate_of(best) == scan_series(
                graph.series@,
                texts(unit_order@),
                unit_ranges@,
                px as int,
                py as int,
                view,
                i as int,
            ),
            best.is_some() ==> best.unwrap().1 < i && best.unwrap().2 < graph.series@[best.unwrap().1 as int].x@.len()
                && searchable(graph.series@[best.unwrap().1 as int], texts(unit_order@)),
        decreases graph.series.len() - i,
    {
        let s = &graph.series[i];
        assert(s.well_formed());
        if is_searchable(s, unit_order) {
            let (start, end) = search_bounds(s, &view);
            best = scan_range(s, i, unit_order, unit_ranges, px, py, &view, start, end, best);
        }
        i += 1;
    }
    match best {
        Some(b) => {
            let s = &graph.series[b.1];
            assert(s.well_formed());
            if b.0 < HOVER_THRESHOLD as i128 && !s.label.as_str().is_empty() {
                let plot_y = plotted_at(s, unit_order, unit_ranges, b.2);
                Some(HoverHit { series: b.1, point: b.2, x: s.x[b.2], y: s.y[b.2], plot_y })
            } else {
                None
            }
        },
        None => None,
    }
}

} // verus!
