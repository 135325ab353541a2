//! The texts and positions of what is drawn over a flat chart: tick
//! labels, axis titles, the legend, cursor read-outs and the tooltip.

use vstd::prelude::*;
use vstd::string::StringExecFns;
use crate::data::datetime::{format_timestamp, timestamp_text};
use crate::fixed::{clamp_finite, clamp_wide, finite, is_finite, narrow, narrow_wide, NAN, SCALE};
use crate::number_text::{format_fixed, value_text};
use crate::render::grid::{format_tick_value, tick_text};
use crate::render::plot_interaction::{PlotViewState, ScreenPos, ScreenRect};
use crate::state::graph_state::{GraphState};
use crate::ui::graph_panel::{denormalized, texts, UnitRange};

verus! {

/// A text drawn at a position of the screen.
pub struct TextLabel {
    pub pos: ScreenPos,
    pub text: String,
}

/// A text label as a mathematical value.
pub struct LabelModel {
    pub pos: ScreenPos,
    pub text: Seq<char>,
}

impl View for TextLabel {
    type V = LabelModel;

    open spec fn view(&self) -> LabelModel {
        LabelModel { pos: self.pos, text: self.text@ }
    }
}

/// The models of a vector of labels.
pub open spec fn label_models(labels: Seq<TextLabel>) -> Seq<LabelModel> {
    Seq::new(labels.len(), |k: int| labels[k]@)
}

/// Distance of tick labels and read-outs from the plot area: four pixels.
pub const LABEL_GAP: i64 = 4_000_000;

// ---------------------------------------------------------------------------
// Axis titles
// ---------------------------------------------------------------------------

/// The title of the `x` axis: `Date and Time` for dates, else the name of
/// the axis, or `X Axis`, with the unit in brackets if there is one.
pub open spec fn x_title(name: Option<String>, unit: Option<String>, is_datetime: bool) -> Seq<char> {
    if is_datetime {
        "Date and Time"@
    } else {
        match (name, unit) {
            (Some(n), Some(u)) => n@ + " ("@ + u@ + ")"@,
            (Some(n), None) => n@,
            (None, Some(u)) => "X Axis ("@ + u@ + ")"@,
            (None, None) => "X Axis"@,
        }
    }
}

/// The title of the `y` axis of a chart with one unit.
pub open spec fn y_title(unit: Option<Seq<char>>) -> Seq<char> {
    match unit {
        Some(u) => "Y Axis ("@ + u + ")"@,
        None => "Y Axis"@,
    }
}

/// The title of the axis of one unit of a chart that overlays several.
pub open spec fn unit_title(unit: Seq<char>) -> Seq<char> {
    "Y ("@ + unit + ")"@
}

/// The title of the `x` axis of a graph.
pub fn x_axis_title(graph: &GraphState, is_datetime: bool) -> (text: String)
    ensures
        text@ == x_title(graph.x_axis_name, graph.x_axis_unit, is_datetime),
{
    if is_datetime {
        return "Date and Time".to_string();
    }
    match (&graph.x_axis_name, &graph.x_axis_unit) {
        (Some(name), Some(unit)) => {
            let mut text = name.clone();
            text.append(" (");
            text.append(unit.as_str());
            text.append(")");
            text
        },
        (Some(name), None) => name.clone(),
        (None, Some(unit)) => {
            let mut text = String::from_str("X Axis (");
            text.append(unit.as_str());
            text.append(")");
            text
        },
        (None, None) => "X Axis".to_string(),
    }
}

/// The title of the `y` axis of a chart with one unit, the first of the
/// units if there is any.
pub fn y_axis_title(unit_order: &Vec<String>) -> (text: String)
    ensures
        text@ == y_title(
            if unit_order@.len() > 0 {
                Some(unit_order@[0]@)
            } else {
                None
            },
        ),
{
    if unit_order.len() > 0 {
        let mut text = String::from_str("Y Axis (");
        text.append(unit_order[0].as_str());
        text.append(")");
        text
    } else {
        "Y Axis".to_string()
    }
}

/// The title of the axis of one unit of a chart that overlays several.
pub fn unit_axis_title(unit: &str) -> (text: String)
    ensures
        text@ == unit_title(unit@),
{
    let mut text = String::from_str("Y (");
    text.append(unit);
    text.append(")");
    text
}

// ---------------------------------------------------------------------------
// Tick labels
// ---------------------------------------------------------------------------

/// The text of a tick of the `x` axis.
pub open spec fn x_tick_text(value: i64, is_datetime: bool) -> Seq<char> {
    if is_datetime {
        timestamp_text(value)
    } else {
        tick_text(value)
    }
}

/// Whether a screen coordinate lies within `extent` pixels from `start`.
pub open spec fn within(coord: int, start: int, extent: int) -> bool {
    start <= coord <= start + extent
}

/// The labels of the first `upto` lines of the `x` grid: for each major
/// line that is drawn inside the plot area its text, just below the area.
pub open spec fn x_tick_models(
    lines: Seq<(i64, bool)>,
    view: PlotViewState,
    rect: ScreenRect,
    is_datetime: bool,
    upto: int,
) -> Seq<LabelModel>
    decreases upto,
{
    if upto <= 0 {
        Seq::empty()
    } else {
        let rest = x_tick_models(lines, view, rect, is_datetime, upto - 1);
        let line = lines[upto - 1];
        let x = view.pixel_at(line.0 as int, view.y_min as int, rect).0;
        if line.1 && within(x, rect.left as int, rect.width as int) {
            rest.push(
                LabelModel {
                    pos: ScreenPos {
                        x: x as i64,
                        y: clamp_finite(rect.top + rect.height + LABEL_GAP) as i64,
                    },
                    text: x_tick_text(line.0, is_datetime),
                },
            )
        } else {
            rest
        }
    }
}

/// The value that a tick of the `y` axis shows: the value of the line, or,
/// on a chart that overlays several units, that value in the unit's range.
pub open spec fn y_tick_value(value: i64, range: Option<UnitRange>) -> i64 {
    match range {
        Some(r) => denormalized(r.y_min, r.y_max, value),
        None => value,
    }
}

/// The labels of the first `upto` lines of the `y` grid, at the screen
/// column `x`: for each major line that is drawn inside the plot area the
/// text of its value.
pub open spec fn y_tick_models(
    lines: Seq<(i64, bool)>,
    view: PlotViewState,
    rect: ScreenRect,
    range: Option<UnitRange>,
    x: i64,
    upto: int,
) -> Seq<LabelModel>
    decreases upto,
{
    if upto <= 0 {
        Seq::empty()
    } else {
        let rest = y_tick_models(lines, view, rect, range, x, upto - 1);
        let line = lines[upto - 1];
        let y = view.pixel_at(view.x_min as int, line.0 as int, rect).1;
        if line.1 && within(y, rect.top as int, rect.height as int) {
            rest.push(
                LabelModel {
                    pos: ScreenPos { x, y: y as i64 },
                    text: tick_text(y_tick_value(line.0, range)),
                },
            )
        } else {
            rest
        }
    }
}

/// The screen column of the tick labels of unit `slot` of a chart: left of
/// the plot area for the first unit, right of it for the others, seventy
/// pixels apart.
pub open spec fn tick_column(rect: ScreenRect, slot: int) -> int {
    if slot <= 0 {
        clamp_finite(rect.left - LABEL_GAP)
    } else {
        clamp_finite(rect.left + rect.width + LABEL_GAP + (slot - 1) * 70 * SCALE)
    }
}

/// The screen column of the tick labels of unit `slot`.
pub fn tick_label_column(rect: ScreenRect, slot: usize) -> (x: i64)
    ensures
        x == tick_column(rect, slot as int),
{
    if slot == 0 {
        clamp_wide(rect.left as i128 - LABEL_GAP as i128)
    } else {
        assert(0 <= (slot - 1) * 70 * SCALE <= 0x1_0000_0000_0000_0000 * 70 * SCALE)
            by (nonlinear_arith)
            requires
                0 <= slot - 1 <= 0x1_0000_0000_0000_0000,
        ;
        clamp_wide(
            rect.left as i128 + rect.width as i128 + LABEL_GAP as i128 + ((slot - 1) as i128) * 70
                * (SCALE as i128),
        )
    }
}

/// The tick labels of the `x` axis.
pub fn x_tick_labels(lines: &Vec<(i64, bool)>, view: &PlotViewState, rect: ScreenRect, is_datetime: bool) -> (labels:
    Vec<TextLabel>)
    requires
        view.well_formed(),
        rect.well_formed(),
        forall|k: int| 0 <= k < lines@.len() ==> finite((#[trigger] lines@[k]).0 as int),
    ensures
        label_models(labels@) == x_tick_models(lines@, *view, rect, is_datetime, lines@.len() as int),
{
    let mut labels: Vec<TextLabel> = Vec::new();
    let below = clamp_wide(rect.top as i128 + rect.height as i128 + LABEL_GAP as i128);
    let mut i: usize = 0;
    assert(label_models(labels@) =~= x_tick_models(lines@, *view, rect, is_datetime, 0));
    while i < lines.len()
        invariant
            i <= lines.len(),
            view.well_formed(),
            rect.well_formed(),
            below == clamp_finite(rect.top + rect.height + LABEL_GAP),
            forall|k: int| 0 <= k < lines@.len() ==> finite((#[trigger] lines@[k]).0 as int),
            label_models(labels@) == x_tick_models(lines@, *view, rect, is_datetime, i as int),
        decreases lines.len() - i,
    {
        let line = lines[i];
        if line.1 {
            assert(finite(lines@[i as int].0 as int));
            let p = view.data_to_screen(line.0, view.y_min, rect);
            if rect.left <= p.x && (p.x as i128) <= rect.left as i128 + rect.width as i128 {
                let ghost before = label_models(labels@);
                let text = if is_datetime {
                    format_timestamp(line.0)
                } else {
                    format_tick_value(line.0)
                };
                let label = TextLabel { pos: ScreenPos { x: p.x, y: below }, text };
                let ghost m = label@;
                labels.push(label);
                assert(label_models(labels@) =~= before.push(m));
            }
        }
        i += 1;
    }
    labels
}

/// The tick labels of the `y` axis at the screen column `x`; on a chart
/// that overlays several units, for the unit with the given range.
pub fn y_tick_labels(
    lines: &Vec<(i64, bool)>,
    view: &PlotViewState,
    rect: ScreenRect,
    range: Option<UnitRange>,
    x: i64,
) -> (labels: Vec<TextLabel>)
    requires
        view.well_formed(),
        rect.well_formed(),
        forall|k: int| 0 <= k < lines@.len() ==> finite((#[trigger] lines@[k]).0 as int),
    ensures
        label_models(labels@) == y_tick_models(lines@, *view, rect, range, x, lines@.len() as int),
{
    let mut labels: Vec<TextLabel> = Vec::new();
    let mut i: usize = 0;
    assert(label_models(labels@) =~= y_tick_models(lines@, *view, rect, range, x, 0));
    while i < lines.len()
        invariant
            i <= lines.len(),
            view.well_formed(),
            rect.well_formed(),
            forall|k: int| 0 <= k < lines@.len() ==> finite((#[trigger] lines@[k]).0 as int),
            label_models(labels@) == y_tick_models(lines@, *view, rect, range, x, i as int),
        decreases lines.len() - i,
    {
        let line = lines[i];
        if line.1 {
            assert(finite(lines@[i as int].0 as int));
            let p = view.data_to_screen(view.x_min, line.0, rect);
            if rect.top <= p.y && (p.y as i128) <= rect.top as i128 + rect.height as i128 {
                let ghost before = label_models(labels@);
                let value = match range {
                    Some(r) => r.denormalize(line.0),
                    None => line.0,
                };
                let label = TextLabel { pos: ScreenPos { x, y: p.y }, text: format_tick_value(value) };
                let ghost m = label@;
                labels.push(label);
                assert(label_models(labels@) =~= before.push(m));
            }
        }
        i += 1;
    }
    labels
}

// ---------------------------------------------------------------------------
// The legend
// ---------------------------------------------------------------------------

/// Where the legend and its entries are drawn.
#[derive(Debug, Clone, Copy, PartialEq, Eq, Structural)]
pub struct LegendLayout {
    /// The background of the legend.
    pub frame: ScreenRect,
    /// Left edge of the colour swatches.
    pub swatch_x: i64,
    /// Left edge of the labels.
    pub text_x: i64,
    /// Top of the first entry; each further entry is sixteen pixels lower.
    pub first_y: i64,
}

/// How many of the first `upto` series are shown.
pub open spec fn shown_series(graph: GraphState, upto: int) -> int
    decreases upto,
{
    if upto <= 0 {
        0
    } else {
        shown_series(graph, upto - 1) + if graph.series@[upto - 1].visible {
            1int
        } else {
            0int
        }
    }
}

/// The layout of the legend in the upper right corner of the plot area,
/// for labels of at most `max_width` pixels and `entries` entries.
pub open spec fn legend_of(rect: ScreenRect, max_width: int, entries: int) -> LegendLayout {
    let x = rect.left + rect.width - 8 * SCALE;
    let y = rect.top + 8 * SCALE;
    let width = max_width + 24 * SCALE;
    LegendLayout {
        frame: ScreenRect {
            left: clamp_finite(x - width - 4 * SCALE) as i64,
            top: clamp_finite(y - 4 * SCALE) as i64,
            width: clamp_finite(width + 8 * SCALE) as i64,
            height: clamp_finite(entries * 16 * SCALE + 8 * SCALE) as i64,
        },
        swatch_x: clamp_finite(x - width) as i64,
        text_x: clamp_finite(x - width + 16 * SCALE) as i64,
        first_y: clamp_finite(y) as i64,
    }
}

/// How many series of a graph are shown.
pub fn visible_count(graph: &GraphState) -> (n: usize)
    ensures
        n == shown_series(*graph, graph.series@.len() as int),
{
    let mut n: usize = 0;
    let mut i: usize = 0;
    while i < graph.series.len()
        invariant
            i <= graph.series.len(),
            n <= i,
            n == shown_series(*graph, i as int),
        decreases graph.series.len() - i,
    {
        if graph.series[i].visible {
            n += 1;
        }
        i += 1;
    }
    n
}

/// Lays out the legend of a graph whose widest label takes `max_width`
/// pixels. None for a graph without series.
pub fn legend_layout(graph: &GraphState, rect: ScreenRect, max_width: i64) -> (r: Option<LegendLayout>)
    requires
        rect.well_formed(),
    ensures
        match r {
            Some(l) => graph.series@.len() > 0 && l == legend_of(
                rect,
                max_width as int,
                shown_series(*graph, graph.series@.len() as int),
            ),
            None => graph.series@.len() == 0,
        },
{
    if graph.series.len() == 0 {
        return None;
    }
    let entries = visible_count(graph);
    let scale: i128 = SCALE as i128;
    let x: i128 = rect.left as i128 + rect.width as i128 - 8 * scale;
    let y: i128 = rect.top as i128 + 8 * scale;
    let width: i128 = max_width as i128 + 24 * scale;
    assert(0 <= entries * 16 * SCALE <= 0x1_0000_0000_0000_0000 * 16 * SCALE) by (nonlinear_arith)
        requires
            0 <= entries <= 0x1_0000_0000_0000_0000,
    ;
    Some(
        LegendLayout {
            frame: ScreenRect {
                left: clamp_wide(x - width - 4 * scale),
                top: clamp_wide(y - 4 * scale),
                width: clamp_wide(width + 8 * scale),
                height: clamp_wide((entries as i128) * 16 * scale + 8 * scale),
            },
            swatch_x: clamp_wide(x - width),
            text_x: clamp_wide(x - width + 16 * scale),
            first_y: clamp_wide(y),
        },
    )
}

// ---------------------------------------------------------------------------
// Cursor read-outs and the tooltip
// ---------------------------------------------------------------------------

/// The distance between two cursors; not a number where a cursor is none.
pub open spec fn cursor_distance(a: i64, b: i64) -> i64 {
    if !finite(a as int) || !finite(b as int) {
        NAN
    } else if b - a >= 0 {
        narrow(b - a)
    } else {
        narrow(a - b)
    }
}

/// The distance between two cursors.
pub fn cursor_delta(a: i64, b: i64) -> (d: i64)
    ensures
        d == cursor_distance(a, b),
{
    if !is_finite(a) || !is_finite(b) {
        return NAN;
    }
    let d: i128 = b as i128 - a as i128;
    if d >= 0 {
        narrow_wide(d)
    } else {
        narrow_wide(-d)
    }
}

/// The read-out of a cursor: its name, then its position as date and time
/// on a date axis, else with four decimal places.
pub open spec fn cursor_text(name: Seq<char>, value: i64, is_datetime: bool) -> Seq<char> {
    name + ": "@ + if is_datetime {
        timestamp_text(value)
    } else {
        value_text(value, 4)
    }
}

/// Writes the read-out of the cursor called `name`.
pub fn cursor_label(name: &str, value: i64, is_datetime: bool) -> (text: String)
    ensures
        text@ == cursor_text(name@, value, is_datetime),
{
    let mut text = String::from_str(name);
    text.append(": ");
    if is_datetime {
        text.append(format_timestamp(value).as_str());
    } else {
        text.append(format_fixed(value, 4).as_str());
    }
    text
}

/// The read-out of the distance between two vertical cursors: in seconds
/// with three decimal places on a date axis, else with four.
pub open spec fn x_delta_text(a: i64, b: i64, is_datetime: bool) -> Seq<char> {
    if is_datetime {
        "dX: "@ + value_text(cursor_distance(a, b), 3) + "s"@
    } else {
        "dX: "@ + value_text(cursor_distance(a, b), 4)
    }
}

/// Writes the read-out of the distance between two vertical cursors.
pub fn x_delta_label(a: i64, b: i64, is_datetime: bool) -> (text: String)
    ensures
        text@ == x_delta_text(a, b, is_datetime),
{
    let mut text = String::from_str("dX: ");
    if is_datetime {
        text.append(format_fixed(cursor_delta(a, b), 3).as_str());
        text.append("s");
    } else {
        text.append(format_fixed(cursor_delta(a, b), 4).as_str());
    }
    text
}

/// The read-out of a horizontal cursor after the first `upto` units of a
/// chart that overlays several: its position in each unit's range with the
/// unit, separated by bars.
pub open spec fn unit_readout(value: i64, units: Seq<Seq<char>>, ranges: Seq<UnitRange>, upto: int) -> Seq<
    char,
>
    decreases upto,
{
    if upto <= 0 {
        Seq::empty()
    } else {
        let part = value_text(denormalized(ranges[upto - 1].y_min, ranges[upto - 1].y_max, value), 4)
            + " "@ + units[upto - 1];
        if upto == 1 {
            part
        } else {
            unit_readout(value, units, ranges, upto - 1) + "  |  "@ + part
        }
    }
}

/// Writes the read-out of the horizontal cursor called `name` of a chart
/// that overlays several units.
pub fn unit_cursor_label(name: &str, value: i64, unit_order: &Vec<String>, unit_ranges: &Vec<UnitRange>) -> (text:
    String)
    requires
        unit_ranges@.len() == unit_order@.len(),
    ensures
        text@ == name@ + ": "@ + unit_readout(
            value,
            texts(unit_order@),
            unit_ranges@,
            unit_order@.len() as int,
        ),
{
    let mut text = String::from_str(name);
    text.append(": ");
    let ghost head = text@;
    let mut k: usize = 0;
    assert(text@ =~= head + unit_readout(value, texts(unit_order@), unit_ranges@, 0));
    while k < unit_order.len()
        invariant
            k <= unit_order.len(),
            unit_ranges@.len() == unit_order@.len(),
            head == name@ + ": "@,
            text@ == head + unit_readout(value, texts(unit_order@), unit_ranges@, k as int),
        decreases unit_order.len() - k,
    {
        let ghost so_far = unit_readout(value, texts(unit_order@), unit_ranges@, k as int);
        if k > 0 {
            text.append("  |  ");
        }
        let shown = unit_ranges[k].denormalize(value);
        text.append(format_fixed(shown, 4).as_str());
        text.append(" ");
        text.append(unit_order[k].as_str());
        proof {
            let part = value_text(shown, 4) + " "@ + unit_order@[k as int]@;
            assert(texts(unit_order@)[k as int] == unit_order@[k as int]@);
            if k > 0 {
                assert(text@ =~= head + (so_far + "  |  "@ + part));
            } else {
                assert(so_far =~= Seq::<char>::empty());
                assert(text@ =~= head + part);
            }
        }
        k += 1;
    }
    text
}

/// The read-out of the distance between two horizontal cursors in one unit.
pub open spec fn y_delta_text(a: i64, b: i64, unit: Option<(Seq<char>, UnitRange)>) -> Seq<char> {
    match unit {
        Some(u) => "dY ("@ + u.0 + "): "@ + value_text(
            cursor_distance(
                denormalized(u.1.y_min, u.1.y_max, a),
                denormalized(u.1.y_min, u.1.y_max, b),
            ),
            4,
        ),
        None => "dY: "@ + value_text(cursor_distance(a, b), 4),
    }
}

/// Writes the read-out of the distance between two horizontal cursors of a
/// chart with one unit.
pub fn y_delta_label(a: i64, b: i64) -> (text: String)
    ensures
        text@ == y_delta_text(a, b, None),
{
    let mut text = String::from_str("dY: ");
    text.append(format_fixed(cursor_delta(a, b), 4).as_str());
    text
}

/// Writes the read-out of the distance between two horizontal cursors in
/// one unit of a chart that overlays several.
pub fn unit_delta_label(a: i64, b: i64, unit: &str, range: UnitRange) -> (text: String)
    ensures
        text@ == y_delta_text(a, b, Some((unit@, range))),
{
    let mut text = String::from_str("dY (");
    text.append(unit);
    text.append("): ");
    let d = cursor_delta(range.denormalize(a), range.denormalize(b));
    text.append(format_fixed(d, 4).as_str());
    text
}

/// The text of the tooltip for a point: the label of its series, its `x` as
/// date and time on a date axis, else with three decimal places, and its
/// `y` in its own unit with three decimal places.
pub open spec fn tooltip_of(label: Seq<char>, x: i64, y: i64, is_datetime: bool) -> Seq<char> {
    label + ": X="@ + (if is_datetime {
        timestamp_text(x)
    } else {
        value_text(x, 3)
    }) + ", Y="@ + value_text(y, 3)
}

/// Writes the tooltip for a point.
pub fn tooltip_text(label: &str, x: i64, y: i64, is_datetime: bool) -> (text: String)
    ensures
        text@ == tooltip_of(label@, x, y, is_datetime),
{
    let mut text = String::from_str(label);
    text.append(": X=");
    if is_datetime {
        text.append(format_timestamp(x).as_str());
    } else {
        text.append(format_fixed(x, 3).as_str());
    }
    text.append(", Y=");
    text.append(format_fixed(y, 3).as_str());
    text
}

} // verus!
