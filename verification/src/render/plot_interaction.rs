//! The view window of a flat chart: fitting, panning, zooming, and the maps
//! between the data window and the pixel rectangle.

use vstd::prelude::*;
use crate::fixed::{clamp_finite, clamp_wide, div_floor, finite, is_finite, lemma_quotient_bound,
    COORD_MAX, SCALE};
use crate::render::extent::{higher, lower, padded, padded_high, padded_low, series_windowed,
    slice_extent, visible_y_high, visible_y_low, windowed_extent, x_high, x_low, y_high, y_low,
    lemma_low_le_high, lemma_finite_low, lemma_finite_high, lemma_padded_window};
use crate::state::data_series::DataSeries;

verus! {

/// Lower bound of the `y` window of a chart that overlays several units.
pub const NORMALIZED_Y_MIN: i64 = -50_000;

/// Upper bound of the `y` window of a chart that overlays several units.
pub const NORMALIZED_Y_MAX: i64 = 1_050_000;

/// A position on the screen, in pixels.
#[derive(Debug, Clone, Copy, PartialEq, Eq, Structural)]
pub struct ScreenPos {
    pub x: i64,
    pub y: i64,
}

/// A rectangle of the screen, in pixels.
#[derive(Debug, Clone, Copy, PartialEq, Eq, Structural)]
pub struct ScreenRect {
    pub left: i64,
    pub top: i64,
    pub width: i64,
    pub height: i64,
}

impl ScreenRect {
    /// Whether the rectangle has a finite origin and a finite, positive size.
    pub open spec fn well_formed(&self) -> bool {
        &&& finite(self.left as int)
        &&& finite(self.top as int)
        &&& 0 < self.width <= COORD_MAX
        &&& 0 < self.height <= COORD_MAX
    }

    /// Checks [`ScreenRect::well_formed`].
    pub fn is_well_formed(&self) -> (r: bool)
        ensures
            r == self.well_formed(),
    {
        is_finite(self.left) && is_finite(self.top) && 0 < self.width && self.width <= COORD_MAX
            && 0 < self.height && self.height <= COORD_MAX
    }
}

/// What the pointer did over a chart during one frame.
#[derive(Debug, Clone, Copy, PartialEq, Eq, Structural)]
pub struct PlotInput {
    /// Whether the chart is dragged with the primary button.
    pub dragged: bool,
    /// Drag distance of this frame, in pixels.
    pub drag_dx: i64,
    pub drag_dy: i64,
    /// Vertical scroll of this frame in pixels; zero when the pointer is elsewhere.
    pub scroll: i64,
    /// Where the pointer hovers, if over the chart.
    pub hover_pos: Option<ScreenPos>,
    pub double_clicked: bool,
}

/// The view window of a chart and what the next frame needs of it.
#[derive(Debug, Clone, Copy, PartialEq, Eq, Structural)]
pub struct PlotViewState {
    pub x_min: i64,
    pub x_max: i64,
    pub y_min: i64,
    pub y_max: i64,
    /// Whether the next frame fits the window to the data.
    pub auto_fit: bool,
    /// Whether the window was ever fitted.
    pub initialized: bool,
    /// The `x` window of the previous frame.
    pub prev_x_min: i64,
    pub prev_x_max: i64,
}

/// Whether `lo .. hi` is a window: finite and not empty.
pub open spec fn is_span(lo: int, hi: int) -> bool {
    finite(lo) && finite(hi) && lo < hi
}

/// The zoom factor for a scroll of `scroll` pixels: one minus a thousandth
/// per pixel, limited to `0.5 ..= 2`.
pub open spec fn zoom_factor(scroll: int) -> int {
    let f = SCALE - scroll / 1000;
    if f < SCALE / 2 {
        SCALE / 2
    } else if f > 2 * SCALE {
        2 * SCALE
    } else {
        f
    }
}

/// A bound after zooming by `factor` around `anchor`.
pub open spec fn zoomed_bound(bound: int, anchor: int, factor: int) -> int {
    anchor + ((bound - anchor) * factor) / (SCALE as int)
}

/// By how much a drag of `delta` pixels along an axis of `extent` pixels
/// moves a window of width `range` against the drag.
pub open spec fn drag_shift(delta: int, range: int, extent: int) -> int {
    (-(delta * range)) / extent
}

/// The data coordinate under a pixel `offset` from the start of an axis of
/// `extent` pixels that shows `lo .. hi`.
pub open spec fn pixel_to_data(offset: int, extent: int, lo: int, hi: int) -> int {
    clamp_finite(lo + (offset * (hi - lo)) / extent)
}

/// The pixel offset from the start of an axis of `extent` pixels that shows
/// `lo .. hi` at which the data coordinate `v` is drawn.
pub open spec fn data_to_pixel(v: int, extent: int, lo: int, hi: int) -> int {
    ((v - lo) * extent) / (hi - lo)
}

impl PlotViewState {
    /// Whether both axes show a finite, non-empty window.
    pub open spec fn well_formed(&self) -> bool {
        is_span(self.x_min as int, self.x_max as int) && is_span(self.y_min as int, self.y_max as int)
    }

    /// Checks [`PlotViewState::well_formed`].
    pub fn is_well_formed(&self) -> (r: bool)
        ensures
            r == self.well_formed(),
    {
        is_finite(self.x_min) && is_finite(self.x_max) && self.x_min < self.x_max && is_finite(
            self.y_min,
        ) && is_finite(self.y_max) && self.y_min < self.y_max
    }

    /// The unit window, waiting to be fitted.
    pub open spec fn new_spec() -> PlotViewState {
        PlotViewState {
            x_min: 0,
            x_max: SCALE,
            y_min: 0,
            y_max: SCALE,
            auto_fit: true,
            initialized: false,
            prev_x_min: 0,
            prev_x_max: SCALE,
        }
    }

    /// The unit window, waiting to be fitted.
    pub fn new() -> (v: PlotViewState)
        ensures
            v == PlotViewState::new_spec(),
            v.well_formed(),
    {
        PlotViewState {
            x_min: 0,
            x_max: SCALE,
            y_min: 0,
            y_max: SCALE,
            auto_fit: true,
            initialized: false,
            prev_x_min: 0,
            prev_x_max: SCALE,
        }
    }

    /// Whether the `x` window differs from the one of the last snapshot.
    pub fn x_range_changed(&self) -> (r: bool)
        ensures
            r == (self.x_min != self.prev_x_min || self.x_max != self.prev_x_max),
    {
        self.x_min != self.prev_x_min || self.x_max != self.prev_x_max
    }

    /// Remembers the `x` window for the next frame's comparison.
    pub fn snapshot_x_range(&mut self)
        ensures
            *final(self) == (PlotViewState {
                prev_x_min: old(self).x_min,
                prev_x_max: old(self).x_max,
                ..*old(self)
            }),
            !final(self).x_range_changed_spec(),
    {
        self.prev_x_min = self.x_min;
        self.prev_x_max = self.x_max;
    }

    /// Whether the `x` window differs from the one of the last snapshot.
    pub open spec fn x_range_changed_spec(&self) -> bool {
        self.x_min != self.prev_x_min || self.x_max != self.prev_x_max
    }

    /// Sets the `x` window to `min .. max`; a window that is not finite or is
    /// empty is rejected and leaves the view as it was.
    pub fn set_x_range(&mut self, min: i64, max: i64)
        ensures
            is_span(min as int, max as int) ==> *final(self) == (PlotViewState {
                x_min: min,
                x_max: max,
                ..*old(self)
            }),
            !is_span(min as int, max as int) ==> *final(self) == *old(self),
    {
        if is_finite(min) && is_finite(max) && min < max {
            self.x_min = min;
            self.x_max = max;
        }
    }

    /// Sets the `y` window to the one of a chart that overlays several units.
    pub fn auto_scale_y_normalized(&mut self)
        ensures
            *final(self) == (PlotViewState {
                y_min: NORMALIZED_Y_MIN,
                y_max: NORMALIZED_Y_MAX,
                ..*old(self)
            }),
    {
        self.y_min = NORMALIZED_Y_MIN;
        self.y_max = NORMALIZED_Y_MAX;
    }

    /// The view after fitting both axes to `series`.
    pub open spec fn fitted(self, series: Seq<DataSeries>) -> PlotViewState {
        if x_low(series).is_some() && y_low(series).is_some() {
            PlotViewState {
                x_min: padded_low(x_low(series).unwrap() as int, x_high(series).unwrap() as int) as i64,
                x_max: padded_high(x_low(series).unwrap() as int, x_high(series).unwrap() as int) as i64,
                y_min: padded_low(y_low(series).unwrap() as int, y_high(series).unwrap() as int) as i64,
                y_max: padded_high(y_low(series).unwrap() as int, y_high(series).unwrap() as int) as i64,
                initialized: true,
                ..self
            }
        } else {
            self
        }
    }

    /// The view after fitting `x` to `series` and `y` to the normalized range.
    pub open spec fn fitted_normalized(self, series: Seq<DataSeries>) -> PlotViewState {
        if x_low(series).is_some() {
            PlotViewState {
                x_min: padded_low(x_low(series).unwrap() as int, x_high(series).unwrap() as int) as i64,
                x_max: padded_high(x_low(series).unwrap() as int, x_high(series).unwrap() as int) as i64,
                y_min: NORMALIZED_Y_MIN,
                y_max: NORMALIZED_Y_MAX,
                initialized: true,
                ..self
            }
        } else {
            self
        }
    }

    /// The view after fitting `y` to the points of `series` inside the `x` window.
    pub open spec fn y_scaled(self, series: Seq<DataSeries>) -> PlotViewState {
        let lo = visible_y_low(series, self.x_min as int, self.x_max as int);
        let hi = visible_y_high(series, self.x_min as int, self.x_max as int);
        if lo.is_some() {
            PlotViewState {
                y_min: padded_low(lo.unwrap() as int, hi.unwrap() as int) as i64,
                y_max: padded_high(lo.unwrap() as int, hi.unwrap() as int) as i64,
                ..self
            }
        } else {
            self
        }
    }

    /// Fits the window to all finite data of the shown, non-empty series,
    /// with a margin of a twentieth of the span on each side (half a unit
    /// where that is zero). Without any finite data the view stays as it is.
    pub fn fit_to_data(&mut self, series: &[DataSeries])
        ensures
            *final(self) == old(self).fitted(series@),
            x_low(series@).is_some() && y_low(series@).is_some() ==> final(self).well_formed()
                && final(self).initialized,
    {
        let (xl, xh) = x_extent(series);
        let (yl, yh) = y_extent(series);
        match (xl, xh, yl, yh) {
            (Some(x0), Some(x1), Some(y0), Some(y1)) => {
                proof {
                    lemma_padded_window(x0 as int, x1 as int);
                    lemma_padded_window(y0 as int, y1 as int);
                }
                let (a, b) = padded(x0, x1);
                let (c, d) = padded(y0, y1);
                self.x_min = a;
                self.x_max = b;
                self.y_min = c;
                self.y_max = d;
                self.initialized = true;
            },
            _ => {},
        }
    }

    /// Fits the `x` window as [`PlotViewState::fit_to_data`] does and sets
    /// the `y` window to the normalized range.
    pub fn fit_to_data_normalized(&mut self, series: &[DataSeries])
        ensures
            *final(self) == old(self).fitted_normalized(series@),
            x_low(series@).is_some() ==> final(self).well_formed() && final(self).initialized,
    {
        let (xl, xh) = x_extent(series);
        match (xl, xh) {
            (Some(x0), Some(x1)) => {
                proof {
                    lemma_padded_window(x0 as int, x1 as int);
                }
                let (a, b) = padded(x0, x1);
                self.x_min = a;
                self.x_max = b;
                self.y_min = NORMALIZED_Y_MIN;
                self.y_max = NORMALIZED_Y_MAX;
                self.initialized = true;
            },
            _ => {},
        }
    }

    /// Fits the `y` window to the points that the current `x` window shows,
    /// leaving `x` untouched. Without such points the view stays as it is.
    pub fn auto_scale_y_to_visible(&mut self, series: &[DataSeries])
        ensures
            *final(self) == old(self).y_scaled(series@),
            final(self).x_min == old(self).x_min,
            final(self).x_max == old(self).x_max,
    {
        let (lo, hi) = visible_y_extent(series, self.x_min, self.x_max);
        match (lo, hi) {
            (Some(y0), Some(y1)) => {
                let (c, d) = padded(y0, y1);
                self.y_min = c;
                self.y_max = d;
            },
            _ => {},
        }
    }
}

impl Default for PlotViewState {
    fn default() -> (v: PlotViewState)
        ensures
            v == PlotViewState::new_spec(),
    {
        PlotViewState::new()
    }
}

/// The smallest and largest finite `x` of the series that take part.
pub fn x_extent(series: &[DataSeries]) -> (r: (Option<i64>, Option<i64>))
    ensures
        r.0 == x_low(series@),
        r.1 == x_high(series@),
        r.0.is_some() == r.1.is_some(),
        r.0.is_some() ==> r.0.unwrap() <= r.1.unwrap() && finite(r.0.unwrap() as int) && finite(
            r.1.unwrap() as int,
        ),
{
    let mut lo: Option<i64> = None;
    let mut hi: Option<i64> = None;
    let mut i: usize = 0;
    while i < series.len()
        invariant
            i <= series.len(),
            lo == x_low(series@.subrange(0, i as int)),
            hi == x_high(series@.subrange(0, i as int)),
            lo.is_some() == hi.is_some(),
            lo.is_some() ==> lo.unwrap() <= hi.unwrap() && finite(lo.unwrap() as int) && finite(
                hi.unwrap() as int,
            ),
        decreases series.len() - i,
    {
        let s = &series[i];
        proof {
            let t = series@.subrange(0, i + 1);
            assert(t.drop_last() =~= series@.subrange(0, i as int));
            assert(t.last() == series@[i as int]);
            lemma_low_le_high(s.x@);
            lemma_finite_low(s.x@);
            lemma_finite_high(s.x@);
        }
        if s.visible && s.x.len() > 0 {
            let (a, b) = slice_extent(s.x.as_slice());
            lo = lower(lo, a);
            hi = higher(hi, b);
        }
        i += 1;
    }
    assert(series@.subrange(0, series.len() as int) =~= series@);
    (lo, hi)
}

/// The smallest and largest finite `y` of the series that take part.
pub fn y_extent(series: &[DataSeries]) -> (r: (Option<i64>, Option<i64>))
    ensures
        r.0 == y_low(series@),
        r.1 == y_high(series@),
        r.0.is_some() == r.1.is_some(),
        r.0.is_some() ==> r.0.unwrap() <= r.1.unwrap() && finite(r.0.unwrap() as int) && finite(
            r.1.unwrap() as int,
        ),
{
    let mut lo: Option<i64> = None;
    let mut hi: Option<i64> = None;
    let mut i: usize = 0;
    while i < series.len()
        invariant
            i <= series.len(),
            lo == y_low(series@.subrange(0, i as int)),
            hi == y_high(series@.subrange(0, i as int)),
            lo.is_some() == hi.is_some(),
            lo.is_some() ==> lo.unwrap() <= hi.unwrap() && finite(lo.unwrap() as int) && finite(
                hi.unwrap() as int,
            ),
        decreases series.len() - i,
    {
        let s = &series[i];
        proof {
            let t = series@.subrange(0, i + 1);
            assert(t.drop_last() =~= series@.subrange(0, i as int));
            assert(t.last() == series@[i as int]);
            lemma_low_le_high(s.y@);
            lemma_finite_low(s.y@);
            lemma_finite_high(s.y@);
        }
        if s.visible && s.x.len() > 0 {
            let (a, b) = slice_extent(s.y.as_slice());
            lo = lower(lo, a);
            hi = higher(hi, b);
        }
        i += 1;
    }
    assert(series@.subrange(0, series.len() as int) =~= series@);
    (lo, hi)
}

/// The smallest and largest `y` among the points of the series that take
/// part whose `x` lies in `x_min ..= x_max`.
pub fn visible_y_extent(series: &[DataSeries], x_min: i64, x_max: i64) -> (r: (
    Option<i64>,
    Option<i64>,
))
    ensures
        r.0 == visible_y_low(series@, x_min as int, x_max as int),
        r.1 == visible_y_high(series@, x_min as int, x_max as int),
        r.0.is_some() == r.1.is_some(),
        r.0.is_some() ==> r.0.unwrap() <= r.1.unwrap(),
{
    let mut lo: Option<i64> = None;
    let mut hi: Option<i64> = None;
    let mut i: usize = 0;
    while i < series.len()
        invariant
            i <= series.len(),
            lo == visible_y_low(series@.subrange(0, i as int), x_min as int, x_max as int),
            hi == visible_y_high(series@.subrange(0, i as int), x_min as int, x_max as int),
            lo.is_some() == hi.is_some(),
            lo.is_some() ==> lo.unwrap() <= hi.unwrap(),
        decreases series.len() - i,
    {
        let s = &series[i];
        proof {
            let t = series@.subrange(0, i + 1);
            assert(t.drop_last() =~= series@.subrange(0, i as int));
            assert(t.last() == series@[i as int]);
            lemma_low_le_high(series_windowed(*s, x_min as int, x_max as int));
        }
        if s.visible && s.x.len() > 0 {
            let (a, b) = windowed_extent(s.x.as_slice(), s.y.as_slice(), x_min, x_max);
            lo = lower(lo, a);
            hi = higher(hi, b);
        }
        i += 1;
    }
    assert(series@.subrange(0, series.len() as int) =~= series@);
    (lo, hi)
}

/// A window `lo .. hi` moved by `shift`; it stays where it is if it would
/// leave the finite range.
pub open spec fn shifted_span(lo: int, hi: int, shift: int) -> (int, int) {
    if finite(lo + shift) && finite(hi + shift) {
        (lo + shift, hi + shift)
    } else {
        (lo, hi)
    }
}

/// A window `lo .. hi` zoomed by `factor` around `anchor`; it stays as it is
/// if the result would be empty or leave the finite range.
pub open spec fn zoomed_span(lo: int, hi: int, anchor: int, factor: int) -> (int, int) {
    if is_span(zoomed_bound(lo, anchor, factor), zoomed_bound(hi, anchor, factor)) {
        (zoomed_bound(lo, anchor, factor), zoomed_bound(hi, anchor, factor))
    } else {
        (lo, hi)
    }
}

fn shift_span(lo: i64, hi: i64, shift: i128) -> (r: (i64, i64))
    requires
        -0x7000_0000_0000_0000_0000_0000_0000_0000 <= shift
            <= 0x7000_0000_0000_0000_0000_0000_0000_0000,
    ensures
        (r.0 as int, r.1 as int) == shifted_span(lo as int, hi as int, shift as int),
{
    let a: i128 = lo as i128 + shift;
    let b: i128 = hi as i128 + shift;
    if -(COORD_MAX as i128) <= a && a <= COORD_MAX as i128 && -(COORD_MAX as i128) <= b && b
        <= COORD_MAX as i128 {
        (a as i64, b as i64)
    } else {
        (lo, hi)
    }
}

fn drag_shift_of(delta: i64, lo: i64, hi: i64, extent: i64) -> (r: i128)
    requires
        is_span(lo as int, hi as int),
        extent > 0,
    ensures
        r == drag_shift(delta as int, hi - lo, extent as int),
        -0x7000_0000_0000_0000_0000_0000_0000_0000 <= r
            <= 0x7000_0000_0000_0000_0000_0000_0000_0000,
{
    let range: i128 = hi as i128 - lo as i128;
    proof {
        lemma_scaled_bound(delta as int, range as int);
    }
    let num: i128 = -((delta as i128) * range);
    let q = div_floor(num, extent as i128);
    proof {
        lemma_quotient_bound(num as int, extent as int);
    }
    q
}

/// The product of a 64-bit integer and a span of finite bounds is far from
/// the limits of 128-bit arithmetic.
proof fn lemma_scaled_bound(a: int, range: int)
    requires
        -0x1_0000_0000_0000_0000 <= a <= 0x1_0000_0000_0000_0000,
        0 <= range <= 2 * COORD_MAX,
    ensures
        -0x7000_0000_0000_0000_0000_0000_0000_0000 <= a * range
            <= 0x7000_0000_0000_0000_0000_0000_0000_0000,
{
    assert(-0x7000_0000_0000_0000_0000_0000_0000_0000 <= a * range
        <= 0x7000_0000_0000_0000_0000_0000_0000_0000) by (nonlinear_arith)
        requires
            -0x1_0000_0000_0000_0000 <= a <= 0x1_0000_0000_0000_0000,
            0 <= range <= 8_000_000_000_000_000_000,
    ;
}

fn zoom_factor_of(scroll: i64) -> (f: i64)
    ensures
        f == zoom_factor(scroll as int),
        SCALE / 2 <= f <= 2 * SCALE,
{
    let step: i128 = div_floor(scroll as i128, 1000);
    let f: i128 = SCALE as i128 - step;
    if f < (SCALE / 2) as i128 {
        SCALE / 2
    } else if f > (2 * SCALE) as i128 {
        2 * SCALE
    } else {
        f as i64
    }
}

fn zoom_span(lo: i64, hi: i64, anchor: i64, factor: i64) -> (r: (i64, i64))
    requires
        finite(lo as int),
        finite(hi as int),
        finite(anchor as int),
        SCALE / 2 <= factor <= 2 * SCALE,
    ensures
        (r.0 as int, r.1 as int) == zoomed_span(lo as int, hi as int, anchor as int, factor as int),
{
    let dl: i128 = lo as i128 - anchor as i128;
    let dh: i128 = hi as i128 - anchor as i128;
    proof {
        lemma_zoom_bound(dl as int, factor as int);
        lemma_zoom_bound(dh as int, factor as int);
        lemma_quotient_bound(dl * factor, SCALE as int);
        lemma_quotient_bound(dh * factor, SCALE as int);
    }
    let a: i128 = anchor as i128 + div_floor(dl * (factor as i128), SCALE as i128);
    let b: i128 = anchor as i128 + div_floor(dh * (factor as i128), SCALE as i128);
    if -(COORD_MAX as i128) <= a && a <= COORD_MAX as i128 && -(COORD_MAX as i128) <= b && b
        <= COORD_MAX as i128 && a < b {
        (a as i64, b as i64)
    } else {
        (lo, hi)
    }
}

proof fn lemma_zoom_bound(d: int, factor: int)
    requires
        -2 * COORD_MAX <= d <= 2 * COORD_MAX,
        0 <= factor <= 2 * SCALE,
    ensures
        -4 * COORD_MAX * SCALE <= d * factor <= 4 * COORD_MAX * SCALE,
{
    assert(-4 * COORD_MAX * SCALE <= d * factor <= 4 * COORD_MAX * SCALE) by (nonlinear_arith)
        requires
            -2 * COORD_MAX <= d <= 2 * COORD_MAX,
            0 <= factor <= 2 * SCALE,
    ;
}

fn pixel_to_data_of(offset: i128, extent: i64, lo: i64, hi: i64) -> (r: i64)
    requires
        is_span(lo as int, hi as int),
        extent > 0,
        -0x1_0000_0000_0000_0000 <= offset <= 0x1_0000_0000_0000_0000,
    ensures
        r == pixel_to_data(offset as int, extent as int, lo as int, hi as int),
        finite(r as int),
{
    let range: i128 = hi as i128 - lo as i128;
    proof {
        lemma_scaled_bound(offset as int, range as int);
        lemma_quotient_bound(offset * range, extent as int);
    }
    let q = div_floor(offset * range, extent as i128);
    clamp_wide(lo as i128 + q)
}

impl PlotViewState {
    /// The view after a drag of `(dx, dy)` pixels over `rect`: the window
    /// moves against the drag along `x`, with it along `y`, and a pending
    /// fit is dropped.
    pub open spec fn panned(self, dx: int, dy: int, rect: ScreenRect) -> PlotViewState {
        let xs = shifted_span(
            self.x_min as int,
            self.x_max as int,
            drag_shift(dx, self.x_max - self.x_min, rect.width as int),
        );
        let ys = shifted_span(
            self.y_min as int,
            self.y_max as int,
            drag_shift(-dy, self.y_max - self.y_min, rect.height as int),
        );
        PlotViewState {
            x_min: xs.0 as i64,
            x_max: xs.1 as i64,
            y_min: ys.0 as i64,
            y_max: ys.1 as i64,
            auto_fit: false,
            ..self
        }
    }

    /// The data coordinates under the pixel `pos` of `rect`.
    pub open spec fn data_at(self, pos: ScreenPos, rect: ScreenRect) -> (int, int) {
        (
            pixel_to_data(
                pos.x - rect.left,
                rect.width as int,
                self.x_min as int,
                self.x_max as int,
            ),
            pixel_to_data(
                rect.height - (pos.y - rect.top),
                rect.height as int,
                self.y_min as int,
                self.y_max as int,
            ),
        )
    }

    /// The view after a scroll of `scroll` pixels with the pointer at `pos`:
    /// each axis is scaled by [`zoom_factor`] around the data point under the
    /// pointer. A scroll of zero changes nothing; any other drops a pending fit.
    pub open spec fn zoomed(self, scroll: int, pos: Option<ScreenPos>, rect: ScreenRect) -> PlotViewState {
        if scroll == 0 {
            self
        } else {
            match pos {
                Some(p) => {
                    let anchor = self.data_at(p, rect);
                    let xs = zoomed_span(
                        self.x_min as int,
                        self.x_max as int,
                        anchor.0,
                        zoom_factor(scroll),
                    );
                    let ys = zoomed_span(
                        self.y_min as int,
                        self.y_max as int,
                        anchor.1,
                        zoom_factor(scroll),
                    );
                    PlotViewState {
                        x_min: xs.0 as i64,
                        x_max: xs.1 as i64,
                        y_min: ys.0 as i64,
                        y_max: ys.1 as i64,
                        auto_fit: false,
                        ..self
                    }
                },
                None => PlotViewState { auto_fit: false, ..self },
            }
        }
    }

    /// The view after one frame of pointer input: first the drag, then the
    /// scroll, then a double click, which asks for a fit.
    pub open spec fn after_input(self, input: PlotInput, rect: ScreenRect) -> PlotViewState {
        let a = if input.dragged {
            self.panned(input.drag_dx as int, input.drag_dy as int, rect)
        } else {
            self
        };
        let b = a.zoomed(input.scroll as int, input.hover_pos, rect);
        if input.double_clicked {
            PlotViewState { auto_fit: true, ..b }
        } else {
            b
        }
    }

    /// Moves the window by a drag of `(dx, dy)` pixels over `rect`.
    pub fn pan(&mut self, dx: i64, dy: i64, rect: ScreenRect)
        requires
            old(self).well_formed(),
            rect.well_formed(),
        ensures
            *final(self) == old(self).panned(dx as int, dy as int, rect),
            final(self).well_formed(),
            final(self).x_max - final(self).x_min == old(self).x_max - old(self).x_min,
            final(self).y_max - final(self).y_min == old(self).y_max - old(self).y_min,
            !final(self).auto_fit,
    {
        let sx = drag_shift_of(dx, self.x_min, self.x_max, rect.width);
        let neg_dy: i128 = -(dy as i128);
        let range_y: i128 = self.y_max as i128 - self.y_min as i128;
        proof {
            lemma_scaled_bound(neg_dy as int, range_y as int);
            lemma_quotient_bound(-(neg_dy * range_y), rect.height as int);
        }
        let sy = div_floor(-(neg_dy * range_y), rect.height as i128);
        let (a, b) = shift_span(self.x_min, self.x_max, sx);
        let (c, d) = shift_span(self.y_min, self.y_max, sy);
        self.x_min = a;
        self.x_max = b;
        self.y_min = c;
        self.y_max = d;
        self.auto_fit = false;
    }

    /// Zooms by a scroll of `scroll` pixels around the pointer at `pos`.
    pub fn zoom(&mut self, scroll: i64, pos: Option<ScreenPos>, rect: ScreenRect)
        requires
            old(self).well_formed(),
            rect.well_formed(),
        ensures
            *final(self) == old(self).zoomed(scroll as int, pos, rect),
            final(self).well_formed(),
            scroll != 0 ==> !final(self).auto_fit,
    {
        if scroll == 0 {
            return;
        }
        match pos {
            Some(p) => {
                let (cx, cy) = self.screen_to_data(p, rect);
                let factor = zoom_factor_of(scroll);
                let (a, b) = zoom_span(self.x_min, self.x_max, cx, factor);
                let (c, d) = zoom_span(self.y_min, self.y_max, cy, factor);
                self.x_min = a;
                self.x_max = b;
                self.y_min = c;
                self.y_max = d;
            },
            None => {},
        }
        self.auto_fit = false;
    }

    /// Applies one frame of pointer input: drag pans, scroll zooms around
    /// the pointer, a double click asks for a fit on the next frame.
    pub fn handle_input(&mut self, input: PlotInput, rect: ScreenRect)
        requires
            old(self).well_formed(),
            rect.well_formed(),
        ensures
            *final(self) == old(self).after_input(input, rect),
            final(self).well_formed(),
            input.double_clicked ==> final(self).auto_fit,
    {
        if input.dragged {
            self.pan(input.drag_dx, input.drag_dy, rect);
        }
        self.zoom(input.scroll, input.hover_pos, rect);
        if input.double_clicked {
            self.auto_fit = true;
        }
    }

    /// The data coordinates under the pixel `pos` of `rect`; the bottom of
    /// the rectangle shows the lower bound of `y`.
    pub fn screen_to_data(&self, pos: ScreenPos, rect: ScreenRect) -> (r: (i64, i64))
        requires
            self.well_formed(),
            rect.well_formed(),
        ensures
            (r.0 as int, r.1 as int) == self.data_at(pos, rect),
            finite(r.0 as int),
            finite(r.1 as int),
            pos.x == rect.left ==> r.0 == self.x_min,
            pos.x == rect.left + rect.width ==> r.0 == self.x_max,
            pos.y == rect.top + rect.height ==> r.1 == self.y_min,
            pos.y == rect.top ==> r.1 == self.y_max,
    {
        let ox: i128 = pos.x as i128 - rect.left as i128;
        let oy: i128 = rect.height as i128 - (pos.y as i128 - rect.top as i128);
        proof {
            let w = rect.width as int;
            let h = rect.height as int;
            let rx = self.x_max - self.x_min;
            let ry = self.y_max - self.y_min;
            assert(0 * rx == 0);
            assert(0 * ry == 0);
            assert((w * rx) / w == rx) by {
                vstd::arithmetic::div_mod::lemma_div_multiples_vanish(rx, w);
            }
            assert((h * ry) / h == ry) by {
                vstd::arithmetic::div_mod::lemma_div_multiples_vanish(ry, h);
            }
        }
        let dx = pixel_to_data_of(ox, rect.width, self.x_min, self.x_max);
        let dy = pixel_to_data_of(oy, rect.height, self.y_min, self.y_max);
        (dx, dy)
    }

    /// The pixel of `rect` at which the data point `(x, y)` is drawn.
    pub open spec fn pixel_at(self, x: int, y: int, rect: ScreenRect) -> (int, int) {
        (
            clamp_finite(
                rect.left + data_to_pixel(x, rect.width as int, self.x_min as int, self.x_max as int),
            ),
            clamp_finite(
                rect.top + rect.height - data_to_pixel(
                    y,
                    rect.height as int,
                    self.y_min as int,
                    self.y_max as int,
                ),
            ),
        )
    }

    /// The pixel of `rect` at which the finite data point `(x, y)` is drawn.
    pub fn data_to_screen(&self, x: i64, y: i64, rect: ScreenRect) -> (p: ScreenPos)
        requires
            self.well_formed(),
            rect.well_formed(),
            finite(x as int),
            finite(y as int),
        ensures
            (p.x as int, p.y as int) == self.pixel_at(x as int, y as int, rect),
            x == self.x_min ==> p.x == rect.left,
            y == self.y_min ==> p.y == clamp_finite(rect.top + rect.height),
    {
        let rx: i128 = self.x_max as i128 - self.x_min as i128;
        let ry: i128 = self.y_max as i128 - self.y_min as i128;
        let ox: i128 = x as i128 - self.x_min as i128;
        let oy: i128 = y as i128 - self.y_min as i128;
        proof {
            lemma_pixel_bound(ox as int, rect.width as int);
            lemma_pixel_bound(oy as int, rect.height as int);
            lemma_quotient_bound(ox * rect.width, rx as int);
            lemma_quotient_bound(oy * rect.height, ry as int);
            assert(0 * (rect.width as int) == 0);
            assert(0 * (rect.height as int) == 0);
        }
        let qx = div_floor(ox * (rect.width as i128), rx);
        let qy = div_floor(oy * (rect.height as i128), ry);
        ScreenPos {
            x: clamp_wide(rect.left as i128 + qx),
            y: clamp_wide(rect.top as i128 + rect.height as i128 - qy),
        }
    }
}

/// Along one axis the two maps are inverse up to rounding: a pixel of the
/// axis, taken to its data coordinate and back, comes back to itself or
/// falls short of itself by less than one pixel step and the pixels that
/// one step of the data spans.
pub proof fn lemma_pixel_round_trip(offset: int, extent: int, lo: int, hi: int)
    requires
        is_span(lo, hi),
        extent > 0,
        0 <= offset <= extent,
    ensures
        lo <= pixel_to_data(offset, extent, lo, hi) <= hi,
        offset == 0 ==> pixel_to_data(offset, extent, lo, hi) == lo,
        offset == extent ==> pixel_to_data(offset, extent, lo, hi) == hi,
        data_to_pixel(pixel_to_data(offset, extent, lo, hi), extent, lo, hi) <= offset,
        (offset - data_to_pixel(pixel_to_data(offset, extent, lo, hi), extent, lo, hi)) * (hi - lo)
            < extent + (hi - lo),
{
    let range = hi - lo;
    let q = (offset * range) / extent;
    vstd::arithmetic::div_mod::lemma_fundamental_div_mod(offset * range, extent);
    vstd::arithmetic::div_mod::lemma_mod_bound(offset * range, extent);
    let r1 = (offset * range) % extent;
    assert(0 <= q <= range) by (nonlinear_arith)
        requires
            offset * range == extent * q + r1,
            0 <= r1 < extent,
            0 <= offset <= extent,
            range > 0,
    ;
    assert(offset == 0 ==> q == 0) by (nonlinear_arith)
        requires
            offset * range == extent * q + r1,
            0 <= r1 < extent,
            q >= 0,
    ;
    assert(offset == extent ==> q == range) by (nonlinear_arith)
        requires
            offset * range == extent * q + r1,
            0 <= r1 < extent,
            0 <= q <= range,
            extent > 0,
    ;
    assert(pixel_to_data(offset, extent, lo, hi) == lo + q);
    let back = (q * extent) / range;
    assert(data_to_pixel(lo + q, extent, lo, hi) == back);
    vstd::arithmetic::div_mod::lemma_fundamental_div_mod(q * extent, range);
    vstd::arithmetic::div_mod::lemma_mod_bound(q * extent, range);
    let r2 = (q * extent) % range;
    assert((offset - back) * range == r1 + r2) by (nonlinear_arith)
        requires
            offset * range == extent * q + r1,
            q * extent == range * back + r2,
    ;
    assert(back <= offset) by (nonlinear_arith)
        requires
            (offset - back) * range == r1 + r2,
            r1 + r2 >= 0,
            range > 0,
    ;
}

/// Along one axis the two maps are inverse up to rounding: a data
/// coordinate inside the window, taken to its pixel and back, comes back to
/// itself or falls short of itself by less than one step and the data that
/// one pixel step spans.
pub proof fn lemma_data_round_trip(v: int, extent: int, lo: int, hi: int)
    requires
        is_span(lo, hi),
        extent > 0,
        lo <= v <= hi,
    ensures
        0 <= data_to_pixel(v, extent, lo, hi) <= extent,
        v == lo ==> data_to_pixel(v, extent, lo, hi) == 0,
        v == hi ==> data_to_pixel(v, extent, lo, hi) == extent,
        pixel_to_data(data_to_pixel(v, extent, lo, hi), extent, lo, hi) <= v,
        (v - pixel_to_data(data_to_pixel(v, extent, lo, hi), extent, lo, hi)) * extent < (hi - lo)
            + extent,
{
    let range = hi - lo;
    let p = ((v - lo) * extent) / range;
    vstd::arithmetic::div_mod::lemma_fundamental_div_mod((v - lo) * extent, range);
    vstd::arithmetic::div_mod::lemma_mod_bound((v - lo) * extent, range);
    let r1 = ((v - lo) * extent) % range;
    assert(0 <= p <= extent) by (nonlinear_arith)
        requires
            (v - lo) * extent == range * p + r1,
            0 <= r1 < range,
            0 <= v - lo <= range,
            extent > 0,
    ;
    assert(v == lo ==> p == 0) by (nonlinear_arith)
        requires
            (v - lo) * extent == range * p + r1,
            0 <= r1 < range,
            p >= 0,
    ;
    assert(v == hi ==> p == extent) by (nonlinear_arith)
        requires
            (v - lo) * extent == range * p + r1,
            0 <= r1 < range,
            0 <= p <= extent,
            range == hi - lo,
            range > 0,
    ;
    let k = (p * range) / extent;
    vstd::arithmetic::div_mod::lemma_fundamental_div_mod(p * range, extent);
    vstd::arithmetic::div_mod::lemma_mod_bound(p * range, extent);
    let r2 = (p * range) % extent;
    assert((v - lo - k) * extent == r1 + r2) by (nonlinear_arith)
        requires
            (v - lo) * extent == range * p + r1,
            p * range == extent * k + r2,
    ;
    assert(0 <= k <= v - lo) by (nonlinear_arith)
        requires
            (v - lo - k) * extent == r1 + r2,
            r1 + r2 >= 0,
            extent > 0,
            p * range == extent * k + r2,
            0 <= r2 < extent,
            p >= 0,
            range > 0,
    ;
    assert(pixel_to_data(p, extent, lo, hi) == lo + k);
}

proof fn lemma_pixel_bound(offset: int, extent: int)
    requires
        -2 * COORD_MAX <= offset <= 2 * COORD_MAX,
        0 <= extent <= COORD_MAX,
    ensures
        -2 * COORD_MAX * COORD_MAX <= offset * extent <= 2 * COORD_MAX * COORD_MAX,
{
    assert(-2 * COORD_MAX * COORD_MAX <= offset * extent <= 2 * COORD_MAX * COORD_MAX)
        by (nonlinear_arith)
        requires
            -2 * COORD_MAX <= offset <= 2 * COORD_MAX,
            0 <= extent <= COORD_MAX,
    ;
}

} // verus!
