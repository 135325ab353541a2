//! The tools of the settings dialog of a graph: statistics, arithmetic
//! between two series, and conversion of units.

use vstd::prelude::*;
use vstd::string::StringExecFns;
use crate::data::number::{number_of, parse_number};
use crate::fixed::{finite, is_finite, mul_fixed, narrow, scaled_product, NAN};
use crate::processing::math_ops::{aligned_pairs, aligned_x, aligned_y, no_match_text,
    perform_math, symbol_text, MathOp};
use crate::processing::statistics::{describes, finite_values, report_text, SeriesStats};
use crate::state::data_series::{color_for_index, next_series_id, palette_color, DataSeries,
    PALETTE_LEN};
use crate::state::graph_state::{same_frame, series_position, GraphState};
use crate::text::{head_before, is_head_of};

verus! {

/// The tolerance within which two series are joined on `x`: a hundred
/// thousandth of a unit.
pub const MATH_TOLERANCE: i64 = 10;

/// The state of the settings dialog of one graph.
pub struct SettingsDialogState {
    pub graph_id: u64,
    /// Which series are ticked for the tools.
    pub selected_series: Vec<bool>,
    pub math_op: MathOp,
    /// Why the last arithmetic failed; empty if it did not.
    pub math_error: String,
    pub unit_new_name: String,
    pub unit_factor: String,
    pub unit_bias: String,
    /// The report of statistics and the series it was made for.
    pub stats_cache: Option<(Vec<u64>, String)>,
}

/// The ready-made unit conversions.
#[derive(Debug, Clone, Copy, PartialEq, Eq, Structural)]
pub enum UnitPreset {
    FahrenheitToCelsius,
    CelsiusToFahrenheit,
    PsiToKilopascal,
    KilopascalToPsi,
}

/// The name, factor and bias of a ready-made conversion.
pub open spec fn preset_fields(p: UnitPreset) -> (Seq<char>, Seq<char>, Seq<char>) {
    match p {
        UnitPreset::FahrenheitToCelsius => ("\u{00B0}C"@, "0.555556"@, "-32"@),
        UnitPreset::CelsiusToFahrenheit => ("\u{00B0}F"@, "1.8"@, "32"@),
        UnitPreset::PsiToKilopascal => ("kPa"@, "6.89476"@, "0"@),
        UnitPreset::KilopascalToPsi => ("psi"@, "0.145038"@, "0"@),
    }
}

/// The identifiers of the ticked ones among the first `upto` series.
pub open spec fn selected_ids(selected: Seq<bool>, series: Seq<DataSeries>, upto: int) -> Seq<u64>
    decreases upto,
{
    if upto <= 0 {
        Seq::empty()
    } else {
        let rest = selected_ids(selected, series, upto - 1);
        if selected[upto - 1] && upto - 1 < series.len() {
            rest.push(series[upto - 1].id)
        } else {
            rest
        }
    }
}

/// A value converted to another unit: bias added, then scaled.
pub open spec fn converted(v: i64, factor: i64, bias: i64) -> i64 {
    if !finite(v as int) || !finite(factor as int) || !finite(bias as int) || !finite(v + bias) {
        NAN
    } else {
        narrow(scaled_product(v + bias, factor as int))
    }
}

/// The label of a series after its unit became `unit`: what came before
/// the first ` (`, then the unit in brackets.
pub open spec fn is_relabelled(label: Seq<char>, old_label: Seq<char>, unit: Seq<char>) -> bool {
    exists|head: Seq<char>| #[trigger]
        is_head_of(head, old_label, " ("@) && label == head + " ("@ + unit + ")"@
}

/// Whether a conversion is carried out: the new unit has a name, factor
/// and bias are finite numbers, and the factor is not zero.
pub open spec fn conversion_valid(name: Seq<char>, factor: Seq<char>, bias: Seq<char>) -> bool {
    &&& name.len() > 0
    &&& number_of(factor).is_some()
    &&& number_of(bias).is_some()
    &&& finite(number_of(factor).unwrap() as int)
    &&& finite(number_of(bias).unwrap() as int)
    &&& number_of(factor).unwrap() != 0
}

/// Whether a series is the conversion of another into the unit `unit`.
pub open spec fn is_converted(after: DataSeries, before: DataSeries, unit: Seq<char>, factor: i64, bias: i64) -> bool {
    &&& after.id == before.id
    &&& after.x == before.x
    &&& after.z == before.z
    &&& after.color == before.color
    &&& after.interpolation == before.interpolation
    &&& after.show_dots == before.show_dots
    &&& after.visible == before.visible
    &&& after.line_width == before.line_width
    &&& after.downsampled_x == before.downsampled_x
    &&& after.downsampled_y == before.downsampled_y
    &&& after.needs_resample
    &&& after.unit@ == unit
    &&& is_relabelled(after.label@, before.label@, unit)
    &&& after.y@.len() == before.y@.len()
    &&& forall|k: int| 0 <= k < before.y@.len() ==> #[trigger] after.y@[k] == converted(before.y@[k], factor, bias)
}

fn convert(v: i64, factor: i64, bias: i64) -> (r: i64)
    ensures
        r == converted(v, factor, bias),
{
    if !is_finite(v) || !is_finite(factor) || !is_finite(bias) {
        return NAN;
    }
    let shifted: i64 = v + bias;
    if !is_finite(shifted) {
        return NAN;
    }
    mul_fixed(shifted, factor)
}

fn contains(ids: &Vec<u64>, id: u64) -> (r: bool)
    ensures
        r == ids@.contains(id),
{
    crate::state::app_state::contains_id(ids, id)
}

impl SettingsDialogState {
    /// The dialog for a graph with `series_count` series: none ticked,
    /// addition chosen, factor one and bias zero.
    pub fn new(graph_id: u64, series_count: usize) -> (state: SettingsDialogState)
        ensures
            state.graph_id == graph_id,
            state.selected_series@.len() == series_count,
            forall|k: int| 0 <= k < series_count ==> !(#[trigger] state.selected_series@[k]),
            state.math_op == MathOp::Add,
            state.math_error@.len() == 0,
            state.unit_new_name@.len() == 0,
            state.unit_factor@ == "1.0"@,
            state.unit_bias@ == "0.0"@,
            state.stats_cache.is_none(),
    {
        let mut selected_series: Vec<bool> = Vec::new();
        let mut k: usize = 0;
        while k < series_count
            invariant
                k <= series_count,
                selected_series@.len() == k,
                forall|j: int| 0 <= j < k ==> !(#[trigger] selected_series@[j]),
            decreases series_count - k,
        {
            selected_series.push(false);
            k += 1;
        }
        SettingsDialogState {
            graph_id,
            selected_series,
            math_op: MathOp::Add,
            math_error: String::new(),
            unit_new_name: String::new(),
            unit_factor: "1.0".to_string(),
            unit_bias: "0.0".to_string(),
            stats_cache: None,
        }
    }

    /// Fills in the fields of the unit tool from a ready-made conversion.
    pub fn apply_preset(&mut self, preset: UnitPreset)
        ensures
            (final(self).unit_new_name@, final(self).unit_factor@, final(self).unit_bias@)
                == preset_fields(preset),
            final(self).graph_id == old(self).graph_id,
            final(self).selected_series == old(self).selected_series,
            final(self).math_op == old(self).math_op,
            final(self).math_error == old(self).math_error,
            final(self).stats_cache == old(self).stats_cache,
    {
        match preset {
            UnitPreset::FahrenheitToCelsius => {
                self.unit_new_name = "\u{00B0}C".to_string();
                self.unit_factor = "0.555556".to_string();
                self.unit_bias = "-32".to_string();
            },
            UnitPreset::CelsiusToFahrenheit => {
                self.unit_new_name = "\u{00B0}F".to_string();
                self.unit_factor = "1.8".to_string();
                self.unit_bias = "32".to_string();
            },
            UnitPreset::PsiToKilopascal => {
                self.unit_new_name = "kPa".to_string();
                self.unit_factor = "6.89476".to_string();
                self.unit_bias = "0".to_string();
            },
            UnitPreset::KilopascalToPsi => {
                self.unit_new_name = "psi".to_string();
                self.unit_factor = "0.145038".to_string();
                self.unit_bias = "0".to_string();
            },
        }
    }
}

/// The identifiers of the ticked series, in the order of the series.
pub fn get_selected_ids(state: &SettingsDialogState, graph: &GraphState) -> (ids: Vec<u64>)
    ensures
        ids@ == selected_ids(
            state.selected_series@,
            graph.series@,
            state.selected_series@.len() as int,
        ),
{
    let mut ids: Vec<u64> = Vec::new();
    let mut i: usize = 0;
    while i < state.selected_series.len()
        invariant
            i <= state.selected_series.len(),
            ids@ == selected_ids(state.selected_series@, graph.series@, i as int),
        decreases state.selected_series.len() - i,
    {
        if state.selected_series[i] && i < graph.series.len() {
            ids.push(graph.series[i].id);
        }
        i += 1;
    }
    ids
}

/// A sequence with the elements at two positions exchanged.
pub open spec fn swapped<T>(s: Seq<T>, a: int, b: int) -> Seq<T> {
    s.update(a, s[b]).update(b, s[a])
}

/// Swaps two series in the paint order of a graph, and their ticks with
/// them. Nothing is swapped unless both positions hold a series.
pub fn swap_series(state: &mut SettingsDialogState, graph: &mut GraphState, a: usize, b: usize)
    ensures
        same_frame(*final(graph), *old(graph)),
        final(graph).series_counter == old(graph).series_counter,
        final(graph).y_axes == old(graph).y_axes,
        final(state).graph_id == old(state).graph_id,
        ({
            let series = old(graph).series@;
            let ticks = old(state).selected_series@;
            let both = a < series.len() && b < series.len();
            &&& both ==> final(graph).series@ == swapped(series, a as int, b as int)
            &&& !both ==> final(graph).series@ == series
            &&& both && a < ticks.len() && b < ticks.len() ==> final(state).selected_series@
                == swapped(ticks, a as int, b as int)
            &&& !(both && a < ticks.len() && b < ticks.len()) ==> final(state).selected_series@
                == ticks
        }),
{
    if a < graph.series.len() && b < graph.series.len() {
        if a != b {
            let lo = if a < b {
                a
            } else {
                b
            };
            let hi = if a < b {
                b
            } else {
                a
            };
            let ghost s0 = graph.series@;
            let upper = graph.series.remove(hi);
            let ghost s1 = graph.series@;
            let lower = graph.series.remove(lo);
            let ghost s2 = graph.series@;
            graph.series.insert(lo, upper);
            let ghost s3 = graph.series@;
            graph.series.insert(hi, lower);
            proof {
                s0.remove_ensures(hi as int);
                s1.remove_ensures(lo as int);
                s2.insert_ensures(lo as int, upper);
                s3.insert_ensures(hi as int, lower);
                let s4 = graph.series@;
                let want = swapped(s0, a as int, b as int);
                assert(s4.len() == want.len());
                assert forall|k: int| 0 <= k < s4.len() implies s4[k] == want[k] by {
                    if k < lo {
                        assert(s4[k] == s3[k]);
                        assert(s3[k] == s2[k]);
                    } else if k == lo {
                        assert(s4[k] == s3[k]);
                    } else if k < hi {
                        assert(s4[k] == s3[k]);
                        assert(s3[k] == s2[k - 1]);
                        assert(s2[k - 1] == s1[k]);
                    } else if k == hi {
                    } else {
                        assert(s4[k] == s3[k - 1]);
                        assert(s3[k - 1] == s2[k - 2]);
                        assert(s2[k - 2] == s1[k - 1]);
                        assert(s1[k - 1] == s0[k]);
                    }
                }
                assert(s4 =~= want);
            }
        } else {
            assert(old(graph).series@ =~= swapped(old(graph).series@, a as int, b as int));
        }
        if a < state.selected_series.len() && b < state.selected_series.len() {
            let ta = state.selected_series[a];
            let tb = state.selected_series[b];
            state.selected_series[a] = tb;
            state.selected_series[b] = ta;
            assert(state.selected_series@ =~= swapped(
                old(state).selected_series@,
                a as int,
                b as int,
            ));
        }
    }
}

// ---------------------------------------------------------------------------
// Conversion of units
// ---------------------------------------------------------------------------

fn convert_values(y: &Vec<i64>, factor: i64, bias: i64) -> (out: Vec<i64>)
    ensures
        out@.len() == y@.len(),
        forall|k: int| 0 <= k < y@.len() ==> #[trigger] out@[k] == converted(y@[k], factor, bias),
{
    let mut out: Vec<i64> = Vec::new();
    let mut i: usize = 0;
    while i < y.len()
        invariant
            i <= y.len(),
            out@.len() == i,
            forall|k: int| 0 <= k < i ==> #[trigger] out@[k] == converted(y@[k], factor, bias),
        decreases y.len() - i,
    {
        out.push(convert(y[i], factor, bias));
        i += 1;
    }
    out
}

fn relabel(label: &str, unit: &str) -> (text: String)
    ensures
        is_relabelled(text@, label@, unit@),
{
    proof {
        reveal_strlit(" (");
    }
    let head = head_before(label, " (");
    let mut text = String::from_str(head);
    text.append(" (");
    text.append(unit);
    text.append(")");
    assert(is_head_of(head@, label@, " ("@) && text@ == head@ + " ("@ + unit@ + ")"@);
    text
}

/// Converts the ticked series of a graph to the unit that the dialog
/// names: each value becomes `(value + bias) * factor`, the unit in the
/// label is replaced, and the series is marked for a new downsampling.
/// Nothing is converted, and that is reported, unless the unit has a name,
/// factor and bias are finite numbers and the factor is not zero.
pub fn apply_unit_conversion(state: &SettingsDialogState, graph: &mut GraphState) -> (done: bool)
    ensures
        same_frame(*final(graph), *old(graph)),
        final(graph).series_counter == old(graph).series_counter,
        final(graph).y_axes == old(graph).y_axes,
        final(graph).series@.len() == old(graph).series@.len(),
        done == conversion_valid(state.unit_new_name@, state.unit_factor@, state.unit_bias@),
        !done ==> final(graph).series@ == old(graph).series@,
        done ==> forall|k: int|
            0 <= k < old(graph).series@.len() ==> {
                let before = old(graph).series@[k];
                let after = #[trigger] final(graph).series@[k];
                if selected_ids(
                    state.selected_series@,
                    old(graph).series@,
                    state.selected_series@.len() as int,
                ).contains(before.id) {
                    is_converted(
                        after,
                        before,
                        state.unit_new_name@,
                        number_of(state.unit_factor@).unwrap(),
                        number_of(state.unit_bias@).unwrap(),
                    )
                } else {
                    after == before
                }
            },
{
    let factor = match parse_number(state.unit_factor.as_str()) {
        Some(f) => f,
        None => {
            return false;
        },
    };
    let bias = match parse_number(state.unit_bias.as_str()) {
        Some(b) => b,
        None => {
            return false;
        },
    };
    if state.unit_new_name.as_str().is_empty() || !is_finite(factor) || !is_finite(bias) || factor
        == 0 {
        return false;
    }
    let ids = get_selected_ids(state, graph);
    let n = graph.series.len();
    let mut k: usize = 0;
    while k < n
        invariant
            k <= n,
            n == graph.series@.len(),
            n == old(graph).series@.len(),
            same_frame(*graph, *old(graph)),
            graph.series_counter == old(graph).series_counter,
            graph.y_axes == old(graph).y_axes,
            ids@ == selected_ids(
                state.selected_series@,
                old(graph).series@,
                state.selected_series@.len() as int,
            ),
            forall|j: int| k <= j < n ==> graph.series@[j] == old(graph).series@[j],
            forall|j: int|
                0 <= j < k ==> {
                    let before = old(graph).series@[j];
                    let after = #[trigger] graph.series@[j];
                    if ids@.contains(before.id) {
                        is_converted(after, before, state.unit_new_name@, factor, bias)
                    } else {
                        after == before
                    }
                },
        decreases n - k,
    {
        if contains(&ids, graph.series[k].id) {
            let y = convert_values(&graph.series[k].y, factor, bias);
            let label = relabel(graph.series[k].label.as_str(), state.unit_new_name.as_str());
            graph.series[k].y = y;
            graph.series[k].label = label;
            graph.series[k].unit = state.unit_new_name.clone();
            graph.series[k].needs_resample = true;
        }
        k += 1;
    }
    true
}

// ---------------------------------------------------------------------------
// Arithmetic between two series
// ---------------------------------------------------------------------------

/// The unit of the result of arithmetic between series of two units: the
/// common unit, or `units` for different ones.
pub open spec fn result_unit(a: Seq<char>, b: Seq<char>) -> Seq<char> {
    if a == b {
        a
    } else {
        "units"@
    }
}

/// The label of the result of arithmetic between two series.
pub open spec fn result_label(a: Seq<char>, op: MathOp, b: Seq<char>) -> Seq<char> {
    a + " "@ + symbol_text(op) + " "@ + b
}

/// What applying the arithmetic tool did.
#[derive(Debug, Clone, Copy, PartialEq, Eq, Structural)]
pub enum MathOutcome {
    /// The tool needs exactly two ticked series that the graph holds.
    NotApplicable,
    /// A series with the result was added to the graph.
    Added,
    /// The two series share no `x` within the tolerance.
    Failed,
}

/// Applies the chosen operation to the two ticked series of a graph, in
/// the order of the series, and adds the result as a new series with the
/// next palette colour; the new series is not ticked. Where the series
/// share no `x`, the reason is kept for display and the graph stays as it is.
pub fn apply_math(state: &mut SettingsDialogState, graph: &mut GraphState, series_ids: &mut u64) -> (outcome:
    MathOutcome)
    requires
        forall|k: int|
            0 <= k < old(graph).series@.len() ==> (#[trigger] old(graph).series@[k]).x@.len() == old(
                graph,
            ).series@[k].y@.len(),
    ensures
        same_frame(*final(graph), *old(graph)),
        final(state).graph_id == old(state).graph_id,
        final(state).math_op == old(state).math_op,
        ({
            let before = old(graph).series@;
            let n = before.len() as int;
            let ticks = old(state).selected_series@;
            let ids = selected_ids(ticks, before, ticks.len() as int);
            let op = old(state).math_op;
            match outcome {
                MathOutcome::NotApplicable => {
                    &&& *final(graph) == *old(graph)
                    &&& *final(state) == *old(state)
                    &&& *final(series_ids) == *old(series_ids)
                    &&& ids.len() != 2 || series_position(before, ids[0], n) == n
                        || series_position(before, ids[1], n) == n
                },
                MathOutcome::Failed => {
                    let p = series_position(before, ids[0], n);
                    let q = series_position(before, ids[1], n);
                    &&& ids.len() == 2
                    &&& 0 <= p < n
                    &&& 0 <= q < n
                    &&& aligned_pairs(
                        before[p].x@,
                        before[q].x@,
                        MATH_TOLERANCE as int,
                        before[p].x@.len() as int,
                    ).len() == 0
                    &&& *final(graph) == *old(graph)
                    &&& final(state).selected_series@ == ticks
                    &&& final(state).math_error@ == no_match_text()
                    &&& *final(series_ids) == *old(series_ids)
                },
                MathOutcome::Added => {
                    let p = series_position(before, ids[0], n);
                    let q = series_position(before, ids[1], n);
                    let pairs = aligned_pairs(
                        before[p].x@,
                        before[q].x@,
                        MATH_TOLERANCE as int,
                        before[p].x@.len() as int,
                    );
                    let added = final(graph).series@.last();
                    &&& ids.len() == 2
                    &&& 0 <= p < n
                    &&& 0 <= q < n
                    &&& pairs.len() > 0
                    &&& final(graph).series@.len() == n + 1
                    &&& final(graph).series@.drop_last() == before
                    &&& added.id == *old(series_ids)
                    &&& added.x@ == aligned_x(before[p].x@, pairs)
                    &&& added.y@ == aligned_y(before[p].y@, before[q].y@, op, pairs)
                    &&& added.z@.len() == 0
                    &&& added.label@ == result_label(before[p].label@, op, before[q].label@)
                    &&& added.unit@ == result_unit(before[p].unit@, before[q].unit@)
                    &&& added.visible
                    &&& added.color@ == palette_color(
                        old(graph).series_counter as int % (PALETTE_LEN as int),
                    )
                    &&& final(graph).series_counter == if old(graph).series_counter < usize::MAX {
                        (old(graph).series_counter + 1) as usize
                    } else {
                        usize::MAX
                    }
                    &&& final(graph).y_axes@.len() >= old(graph).y_axes@.len()
                    &&& final(graph).y_axes@.subrange(0, old(graph).y_axes@.len() as int) == old(
                        graph,
                    ).y_axes@
                    &&& *final(series_ids) == if *old(series_ids) == u64::MAX {
                        0
                    } else {
                        (*old(series_ids) + 1) as u64
                    }
                    &&& final(state).selected_series@ == ticks.push(false)
                    &&& final(state).math_error@.len() == 0
                },
            }
        }),
{
    let ids = get_selected_ids(state, graph);
    if ids.len() != 2 {
        return MathOutcome::NotApplicable;
    }
    let p = match graph.find_series(ids[0]) {
        Some(p) => p,
        None => {
            return MathOutcome::NotApplicable;
        },
    };
    let q = match graph.find_series(ids[1]) {
        Some(q) => q,
        None => {
            return MathOutcome::NotApplicable;
        },
    };
    let result = perform_math(
        graph.series[p].x.as_slice(),
        graph.series[p].y.as_slice(),
        graph.series[q].x.as_slice(),
        graph.series[q].y.as_slice(),
        state.math_op,
        MATH_TOLERANCE,
    );
    match result {
        Ok(math_result) => {
            let unit = if graph.series[p].unit == graph.series[q].unit {
                graph.series[p].unit.clone()
            } else {
                "units".to_string()
            };
            let mut title = graph.series[p].label.clone();
            title.append(" ");
            title.append(state.math_op.symbol());
            title.append(" ");
            title.append(graph.series[q].label.as_str());
            let color = color_for_index(graph.series_counter);
            let id = next_series_id(series_ids);
            let series = DataSeries::new(id, title, math_result.x, math_result.y, color, unit);
            graph.add_series(series);
            state.math_error = String::new();
            state.selected_series.push(false);
            MathOutcome::Added
        },
        Err(e) => {
            state.math_error = e;
            MathOutcome::Failed
        },
    }
}

// ---------------------------------------------------------------------------
// Statistics
// ---------------------------------------------------------------------------

/// What the report says of a series without a finite value.
pub open spec fn no_data_report(label: Seq<char>) -> Seq<char> {
    label + ":\n  No valid numeric data.\n\n"@
}

/// Whether `text` is the part of the report for one series.
pub open spec fn is_series_report(text: Seq<char>, s: DataSeries) -> bool {
    let v = finite_values(s.y@, s.y@.len() as int);
    if v.len() == 0 {
        text == no_data_report(s.label@)
    } else {
        exists|stats: SeriesStats| #[trigger]
            describes(stats, v) && text == report_text(stats, s.label@) + "\n"@
    }
}

/// The part of the statistics report for one series.
pub fn series_report(s: &DataSeries) -> (text: String)
    ensures
        is_series_report(text@, *s),
{
    match SeriesStats::compute(s.y.as_slice()) {
        Some(stats) => {
            let mut text = stats.report(s.label.as_str());
            text.append("\n");
            assert(describes(stats, finite_values(s.y@, s.y@.len() as int)) && text@ == report_text(
                stats,
                s.label@,
            ) + "\n"@);
            text
        },
        None => {
            let mut text = s.label.clone();
            text.append(":\n  No valid numeric data.\n\n");
            text
        },
    }
}

/// The first `upto` texts of `parts`, one after the other.
pub open spec fn joined_parts(parts: Seq<Seq<char>>, upto: int) -> Seq<char>
    decreases upto,
{
    if upto <= 0 {
        Seq::empty()
    } else {
        joined_parts(parts, upto - 1) + parts[upto - 1]
    }
}

/// Whether `parts` holds, for each series, its part of the report: the
/// report of a ticked series, nothing for any other.
pub open spec fn are_report_parts(parts: Seq<Seq<char>>, series: Seq<DataSeries>, ids: Seq<u64>) -> bool {
    &&& parts.len() == series.len()
    &&& forall|k: int|
        0 <= k < series.len() ==> if ids.contains(series[k].id) {
            is_series_report(#[trigger] parts[k], series[k])
        } else {
            parts[k].len() == 0
        }
}

/// Whether `text` is the report for the ticked series: their parts one
/// after the other, in the order of the series.
pub open spec fn is_report(text: Seq<char>, series: Seq<DataSeries>, ids: Seq<u64>) -> bool {
    exists|parts: Seq<Seq<char>>| #[trigger]
        are_report_parts(parts, series, ids) && text == joined_parts(parts, series.len() as int)
}

/// Whether the report of statistics must be made anew: there is none, or
/// it was made for other series than the ticked ones.
pub open spec fn report_stale(cache: Option<(Vec<u64>, String)>, ids: Seq<u64>) -> bool {
    match cache {
        Some(c) => c.0@ != ids,
        None => true,
    }
}

/// Texts that agree in their first `upto` places join to the same text.
pub proof fn lemma_joined_prefix(a: Seq<Seq<char>>, b: Seq<Seq<char>>, upto: int)
    requires
        0 <= upto <= a.len(),
        upto <= b.len(),
        forall|k: int| 0 <= k < upto ==> a[k] == b[k],
    ensures
        joined_parts(a, upto) == joined_parts(b, upto),
    decreases upto,
{
    if upto > 0 {
        lemma_joined_prefix(a, b, upto - 1);
    }
}

fn same_ids(a: &Vec<u64>, b: &Vec<u64>) -> (r: bool)
    ensures
        r == (a@ == b@),
{
    if a.len() != b.len() {
        return false;
    }
    let mut i: usize = 0;
    while i < a.len()
        invariant
            i <= a.len(),
            a@.len() == b@.len(),
            forall|k: int| 0 <= k < i ==> a@[k] == b@[k],
        decreases a.len() - i,
    {
        if a[i] != b[i] {
            return false;
        }
        i += 1;
    }
    assert(a@ =~= b@);
    true
}

/// Brings the report of statistics up to date: without ticked series there
/// is none; a report made for the ticked series is kept; otherwise a new
/// one is made, with one part for each ticked series in their order.
pub fn refresh_stats(state: &mut SettingsDialogState, graph: &GraphState)
    ensures
        final(state).graph_id == old(state).graph_id,
        final(state).selected_series == old(state).selected_series,
        final(state).math_op == old(state).math_op,
        final(state).math_error == old(state).math_error,
        ({
            let ids = selected_ids(
                old(state).selected_series@,
                graph.series@,
                old(state).selected_series@.len() as int,
            );
            if ids.len() == 0 {
                final(state).stats_cache.is_none()
            } else if !report_stale(old(state).stats_cache, ids) {
                final(state).stats_cache == old(state).stats_cache
            } else {
                final(state).stats_cache.is_some() && final(state).stats_cache.unwrap().0@ == ids
                    && is_report(final(state).stats_cache.unwrap().1@, graph.series@, ids)
            }
        }),
{
    let ids = get_selected_ids(state, graph);
    if ids.len() == 0 {
        state.stats_cache = None;
        return;
    }
    let stale = match &state.stats_cache {
        Some(c) => !same_ids(&c.0, &ids),
        None => true,
    };
    if stale {
        let mut report = String::new();
        let ghost mut parts: Seq<Seq<char>> = Seq::empty();
        let mut k: usize = 0;
        while k < graph.series.len()
            invariant
                k <= graph.series.len(),
                parts.len() == k,
                report@ == joined_parts(parts, k as int),
                forall|j: int|
                    0 <= j < k ==> if ids@.contains(graph.series@[j].id) {
                        is_series_report(#[trigger] parts[j], graph.series@[j])
                    } else {
                        parts[j].len() == 0
                    },
            decreases graph.series.len() - k,
        {
            let ghost before = parts;
            if contains(&ids, graph.series[k].id) {
                let part = series_report(&graph.series[k]);
                report.append(part.as_str());
                proof {
                    parts = parts.push(part@);
                }
            } else {
                proof {
                    parts = parts.push(Seq::empty());
                    assert(report@ =~= report@ + Seq::<char>::empty());
                }
            }
            proof {
                lemma_joined_prefix(before, parts, k as int);
                assert forall|j: int| 0 <= j < k + 1 implies if ids@.contains(graph.series@[j].id) {
                    is_series_report(#[trigger] parts[j], graph.series@[j])
                } else {
                    parts[j].len() == 0
                } by {
                    if j < k {
                        assert(parts[j] == before[j]);
                    }
                }
            }
            k += 1;
        }
        assert(are_report_parts(parts, graph.series@, ids@) && report@ == joined_parts(
            parts,
            graph.series@.len() as int,
        ));
        state.stats_cache = Some((ids, report));
    }
}

} // verus!
