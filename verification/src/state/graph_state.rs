//! One graph: its series, its axes and its view.

use vstd::prelude::*;
use vstd::string::StringExecFns;
use crate::fixed::{clamp_finite, clamp_wide, finite, SCALE};
use crate::plot3d::camera::OrbitalCamera;
use crate::render::extent::{finite_high, finite_low, higher, lower, merge_high, merge_low,
    series_windowed, windowed_extent, x_high, x_low, lemma_low_le_high};
use crate::render::plot_interaction::{x_extent, PlotViewState, ScreenRect};
use crate::state::data_series::{color_for_index, palette_color, DataSeries, PlotMode, PALETTE_LEN};
use crate::text::same_text;

verus! {

/// Direction of a sorted table column.
#[derive(Debug, Clone, Copy, PartialEq, Eq, Structural)]
pub enum SortDirection {
    Ascending,
    Descending,
}

/// Which measurement cursors a chart shows.
#[derive(Debug, Clone, Copy, PartialEq, Eq, Structural)]
pub enum CursorMode {
    Off,
    Vertical,
    Horizontal,
}

/// The measurement cursors of a chart.
#[derive(Debug, Clone, Copy, PartialEq, Eq, Structural)]
pub struct CursorState {
    pub mode: CursorMode,
    /// Position of the first cursor: `x` for vertical cursors, `y` for horizontal ones.
    pub cursor1: Option<i64>,
    /// Position of the second cursor.
    pub cursor2: Option<i64>,
}

impl CursorState {
    /// The cursors after a click at data position `value`: the first free
    /// cursor is placed; with both placed, the first is moved and the second
    /// removed.
    pub open spec fn placed(self, value: i64) -> CursorState {
        if self.cursor1.is_none() {
            CursorState { cursor1: Some(value), ..self }
        } else if self.cursor2.is_none() {
            CursorState { cursor2: Some(value), ..self }
        } else {
            CursorState { cursor1: Some(value), cursor2: None, ..self }
        }
    }

    /// The cursors after the button of `mode` was pressed: that mode with no
    /// cursor placed, or no cursors at all if it was the mode already.
    pub open spec fn toggled(self, mode: CursorMode) -> CursorState {
        CursorState {
            mode: if self.mode == mode {
                CursorMode::Off
            } else {
                mode
            },
            cursor1: None,
            cursor2: None,
        }
    }

    /// Switches the cursors of `mode` on, or off if they are on; the placed
    /// cursors are dropped.
    pub fn toggle(&mut self, mode: CursorMode)
        ensures
            *final(self) == old(self).toggled(mode),
    {
        self.mode = if self.mode == mode {
            CursorMode::Off
        } else {
            mode
        };
        self.cursor1 = None;
        self.cursor2 = None;
    }

    /// Places a cursor at the data position `(x, y)` of a click: at `x` for
    /// vertical cursors, at `y` for horizontal ones, nowhere when cursors are off.
    pub fn place(&mut self, x: i64, y: i64)
        ensures
            *final(self) == match old(self).mode {
                CursorMode::Vertical => old(self).placed(x),
                CursorMode::Horizontal => old(self).placed(y),
                CursorMode::Off => *old(self),
            },
    {
        let value = match self.mode {
            CursorMode::Vertical => x,
            CursorMode::Horizontal => y,
            CursorMode::Off => {
                return;
            },
        };
        if self.cursor1.is_none() {
            self.cursor1 = Some(value);
        } else if self.cursor2.is_none() {
            self.cursor2 = Some(value);
        } else {
            self.cursor1 = Some(value);
            self.cursor2 = None;
        }
    }
}

impl Default for CursorState {
    fn default() -> (c: CursorState)
        ensures
            c == (CursorState { mode: CursorMode::Off, cursor1: None, cursor2: None }),
    {
        CursorState { mode: CursorMode::Off, cursor1: None, cursor2: None }
    }
}

/// Hands out the next identifier of a counter and advances it; the counter
/// wraps around after the largest identifier.
pub fn next_graph_id(counter: &mut u64) -> (id: u64)
    ensures
        id == *old(counter),
        *final(counter) == if *old(counter) == u64::MAX {
            0
        } else {
            (*old(counter) + 1) as u64
        },
{
    let id = *counter;
    *counter = if id == u64::MAX {
        0
    } else {
        id + 1
    };
    id
}

/// The `y` axis of one unit.
pub struct AxisState {
    pub label: String,
    pub auto_range: bool,
    pub min: i64,
    pub max: i64,
}

impl Default for AxisState {
    fn default() -> (a: AxisState)
        ensures
            a.label@ == Seq::<char>::empty(),
            a.auto_range,
            a.min == 0,
            a.max == SCALE,
    {
        AxisState { label: String::new(), auto_range: true, min: 0, max: SCALE }
    }
}

/// The `y` axis that a graph keeps for a unit.
pub struct AxisEntry {
    pub unit: String,
    pub axis: AxisState,
}

/// Table sorting: the column and the direction.
#[derive(Debug, Clone, Copy, PartialEq, Eq, Structural)]
pub struct TableSort {
    pub column: usize,
    pub direction: SortDirection,
}

/// The sorting after a click on the header of `column`: ascending, then
/// descending, then none.
pub open spec fn cycled_sort(current: Option<TableSort>, column: usize) -> Option<TableSort> {
    match current {
        Some(s) => if s.column == column {
            match s.direction {
                SortDirection::Ascending => Some(
                    TableSort { column, direction: SortDirection::Descending },
                ),
                SortDirection::Descending => None,
            }
        } else {
            Some(TableSort { column, direction: SortDirection::Ascending })
        },
        None => Some(TableSort { column, direction: SortDirection::Ascending }),
    }
}

/// The label of the `y` axis of `unit`.
pub open spec fn axis_label(unit: Seq<char>) -> Seq<char> {
    "Y Axis ("@ + unit + ")"@
}

/// Whether one of the first `upto` axes is the one of `unit`.
pub open spec fn has_axis(axes: Seq<AxisEntry>, unit: Seq<char>, upto: int) -> bool {
    exists|k: int| 0 <= k < upto && k < axes.len() && (#[trigger] axes[k]).unit@ == unit
}

/// Whether one of the first `upto` series has the unit `unit`.
pub open spec fn unit_in_use(series: Seq<DataSeries>, unit: Seq<char>, upto: int) -> bool {
    exists|k: int| 0 <= k < upto && k < series.len() && (#[trigger] series[k]).unit@ == unit
}

/// Position of the first of the first `upto` series with identifier `id`; `upto` if none.
pub open spec fn series_position(series: Seq<DataSeries>, id: u64, upto: int) -> int
    decreases upto,
{
    if upto <= 0 {
        0
    } else {
        let p = series_position(series, id, upto - 1);
        if p < upto - 1 {
            p
        } else if series[upto - 1].id == id {
            upto - 1
        } else {
            upto
        }
    }
}

/// Position of the first of the first `upto` axes for `unit`; `upto` if none.
pub open spec fn axis_position(axes: Seq<AxisEntry>, unit: Seq<char>, upto: int) -> int
    decreases upto,
{
    if upto <= 0 {
        0
    } else {
        let p = axis_position(axes, unit, upto - 1);
        if p < upto - 1 {
            p
        } else if axes[upto - 1].unit@ == unit {
            upto - 1
        } else {
            upto
        }
    }
}

/// The color a series gets when it is added at counter `counter`: its own,
/// or the palette's when its own is all zero.
pub open spec fn assigned_color(own: Seq<u8>, counter: int) -> Seq<u8> {
    if own == seq![0u8, 0u8, 0u8, 0u8] {
        palette_color(counter % (PALETTE_LEN as int))
    } else {
        own
    }
}

/// The smallest `y` among the points, inside `lo ..= hi`, of the shown
/// series with unit `unit`.
pub open spec fn unit_y_low(series: Seq<DataSeries>, unit: Seq<char>, lo: int, hi: int) -> Option<
    i64,
>
    decreases series.len(),
{
    if series.len() == 0 {
        None
    } else if series.last().visible && series.last().unit@ == unit {
        merge_low(
            unit_y_low(series.drop_last(), unit, lo, hi),
            finite_low(series_windowed(series.last(), lo, hi)),
        )
    } else {
        unit_y_low(series.drop_last(), unit, lo, hi)
    }
}

/// The largest `y` among the points, inside `lo ..= hi`, of the shown
/// series with unit `unit`.
pub open spec fn unit_y_high(series: Seq<DataSeries>, unit: Seq<char>, lo: int, hi: int) -> Option<
    i64,
>
    decreases series.len(),
{
    if series.len() == 0 {
        None
    } else if series.last().visible && series.last().unit@ == unit {
        merge_high(
            unit_y_high(series.drop_last(), unit, lo, hi),
            finite_high(series_windowed(series.last(), lo, hi)),
        )
    } else {
        unit_y_high(series.drop_last(), unit, lo, hi)
    }
}

/// One graph of the application.
pub struct GraphState {
    pub id: u64,
    pub title: String,
    pub series: Vec<DataSeries>,
    /// How many series were ever added; picks the palette colour of the next.
    pub series_counter: usize,
    pub x_axis_is_datetime: Option<bool>,
    pub x_axis_name: Option<String>,
    pub x_axis_unit: Option<String>,
    pub auto_scale_y: bool,
    /// One axis per unit in use, in the order in which the units came.
    pub y_axes: Vec<AxisEntry>,
    /// The graphs whose `x` window follows this one's.
    pub sync_partner_ids: Vec<u64>,
    /// Smallest identifier of the sync group, if the graph is in one.
    pub sync_group_id: Option<u64>,
    pub show_data_table: bool,
    pub plot_mode: PlotMode,
    pub is_updating_range: bool,
    pub table_sort: Option<TableSort>,
    pub plot_view: PlotViewState,
    pub camera: OrbitalCamera,
    pub cursor_state: CursorState,
    /// Check marks of the dialog that removes series.
    pub remove_series_selected: Vec<bool>,
    /// Where the graph's panel was drawn in the last frame.
    pub last_frame_rect: Option<ScreenRect>,
}

impl GraphState {
    /// An empty graph with the given identifier.
    pub fn new(id: u64) -> (g: GraphState)
        ensures
            g.id == id,
            g.title@ == "Title"@,
            g.series@.len() == 0,
            g.series_counter == 0,
            g.x_axis_is_datetime.is_none(),
            g.x_axis_name.is_none(),
            g.x_axis_unit.is_none(),
            g.auto_scale_y,
            g.y_axes@.len() == 0,
            g.sync_partner_ids@.len() == 0,
            g.sync_group_id.is_none(),
            !g.show_data_table,
            g.plot_mode == PlotMode::Plot2D,
            !g.is_updating_range,
            g.table_sort.is_none(),
            g.plot_view == PlotViewState::new_spec(),
            g.camera == crate::plot3d::camera::default_camera(),
            g.cursor_state == (CursorState { mode: CursorMode::Off, cursor1: None, cursor2: None }),
            g.remove_series_selected@.len() == 0,
            g.last_frame_rect.is_none(),
    {
        GraphState {
            id,
            title: "Title".to_string(),
            series: Vec::new(),
            series_counter: 0,
            x_axis_is_datetime: None,
            x_axis_name: None,
            x_axis_unit: None,
            auto_scale_y: true,
            y_axes: Vec::new(),
            sync_partner_ids: Vec::new(),
            sync_group_id: None,
            show_data_table: false,
            plot_mode: PlotMode::Plot2D,
            is_updating_range: false,
            table_sort: None,
            plot_view: PlotViewState::new(),
            camera: OrbitalCamera::default(),
            cursor_state: CursorState::default(),
            remove_series_selected: Vec::new(),
            last_frame_rect: None,
        }
    }

    /// Whether the view shows a window and every series is well formed.
    pub open spec fn drawable(&self) -> bool {
        &&& self.plot_view.well_formed()
        &&& forall|k: int| 0 <= k < self.series@.len() ==> (#[trigger] self.series@[k]).well_formed()
    }

    /// Checks [`GraphState::drawable`].
    pub fn is_drawable(&self) -> (r: bool)
        ensures
            r == self.drawable(),
    {
        if !self.plot_view.is_well_formed() {
            return false;
        }
        let mut k: usize = 0;
        while k < self.series.len()
            invariant
                k <= self.series.len(),
                forall|j: int| 0 <= j < k ==> (#[trigger] self.series@[j]).well_formed(),
            decreases self.series.len() - k,
        {
            if !self.series[k].is_well_formed() {
                return false;
            }
            k += 1;
        }
        true
    }

    /// Steps the table sorting after a click on the header of `column`.
    pub fn cycle_sort(&mut self, column: usize)
        ensures
            *final(self) == (GraphState {
                table_sort: cycled_sort(old(self).table_sort, column),
                ..*old(self)
            }),
    {
        let next = match self.table_sort {
            Some(s) => {
                if s.column == column {
                    match s.direction {
                        SortDirection::Ascending => Some(
                            TableSort { column, direction: SortDirection::Descending },
                        ),
                        SortDirection::Descending => None,
                    }
                } else {
                    Some(TableSort { column, direction: SortDirection::Ascending })
                }
            },
            None => Some(TableSort { column, direction: SortDirection::Ascending }),
        };
        self.table_sort = next;
    }

    /// The labels of the series, in order.
    pub fn series_labels(&self) -> (labels: Vec<String>)
        ensures
            labels@.len() == self.series@.len(),
            forall|i: int| 0 <= i < labels@.len() ==> (#[trigger] labels@[i])@ == self.series@[i].label@,
    {
        let mut labels: Vec<String> = Vec::new();
        let mut i: usize = 0;
        while i < self.series.len()
            invariant
                i <= self.series.len(),
                labels@.len() == i,
                forall|k: int| 0 <= k < i ==> (#[trigger] labels@[k])@ == self.series@[k].label@,
            decreases self.series.len() - i,
        {
            labels.push(self.series[i].label.clone());
            i += 1;
        }
        labels
    }

    /// The smallest and largest finite `x` of the shown, non-empty series.
    pub fn x_range(&self) -> (r: Option<(i64, i64)>)
        ensures
            r.is_some() == x_low(self.series@).is_some(),
            r.is_some() ==> r.unwrap().0 == x_low(self.series@).unwrap() && r.unwrap().1 == x_high(
                self.series@,
            ).unwrap() && r.unwrap().0 <= r.unwrap().1,
    {
        let (lo, hi) = x_extent(self.series.as_slice());
        match (lo, hi) {
            (Some(a), Some(b)) => Some((a, b)),
            _ => None,
        }
    }

    /// The `y` range, widened by a twentieth of its span on each side, of
    /// the points of the shown series with unit `unit` whose `x` lies in
    /// `x_min ..= x_max`.
    pub fn y_range_for_unit(&self, unit: &str, x_min: i64, x_max: i64) -> (r: Option<(i64, i64)>)
        ensures
            r.is_some() == unit_y_low(self.series@, unit@, x_min as int, x_max as int).is_some(),
            r.is_some() ==> {
                let lo = unit_y_low(self.series@, unit@, x_min as int, x_max as int).unwrap();
                let hi = unit_y_high(self.series@, unit@, x_min as int, x_max as int).unwrap();
                &&& lo <= hi
                &&& r.unwrap().0 == clamp_finite(lo - (hi - lo) / 20)
                &&& r.unwrap().1 == clamp_finite(hi + (hi - lo) / 20)
            },
    {
        let mut lo: Option<i64> = None;
        let mut hi: Option<i64> = None;
        let mut i: usize = 0;
        while i < self.series.len()
            invariant
                i <= self.series.len(),
                lo == unit_y_low(self.series@.subrange(0, i as int), unit@, x_min as int, x_max as int),
                hi == unit_y_high(self.series@.subrange(0, i as int), unit@, x_min as int, x_max as int),
                lo.is_some() == hi.is_some(),
                lo.is_some() ==> lo.unwrap() <= hi.unwrap(),
            decreases self.series.len() - i,
        {
            let s = &self.series[i];
            proof {
                let t = self.series@.subrange(0, i + 1);
                assert(t.drop_last() =~= self.series@.subrange(0, i as int));
                assert(t.last() == self.series@[i as int]);
                lemma_low_le_high(series_windowed(*s, x_min as int, x_max as int));
            }
            if s.visible && same_text(s.unit.as_str(), unit) {
                let (a, b) = windowed_extent(s.x.as_slice(), s.y.as_slice(), x_min, x_max);
                lo = lower(lo, a);
                hi = higher(hi, b);
            }
            i += 1;
        }
        assert(self.series@.subrange(0, self.series.len() as int) =~= self.series@);
        match (lo, hi) {
            (Some(a), Some(b)) => {
                let pad: i128 = (b as i128 - a as i128) / 20;
                Some((clamp_wide(a as i128 - pad), clamp_wide(b as i128 + pad)))
            },
            _ => None,
        }
    }
}

/// Whether two graphs agree in everything but their series, their series
/// counter and their axes.
pub open spec fn same_frame(a: GraphState, b: GraphState) -> bool {
    &&& a.id == b.id
    &&& a.title == b.title
    &&& a.x_axis_is_datetime == b.x_axis_is_datetime
    &&& a.x_axis_name == b.x_axis_name
    &&& a.x_axis_unit == b.x_axis_unit
    &&& a.auto_scale_y == b.auto_scale_y
    &&& a.sync_partner_ids == b.sync_partner_ids
    &&& a.sync_group_id == b.sync_group_id
    &&& a.show_data_table == b.show_data_table
    &&& a.plot_mode == b.plot_mode
    &&& a.is_updating_range == b.is_updating_range
    &&& a.table_sort == b.table_sort
    &&& a.plot_view == b.plot_view
    &&& a.camera == b.camera
    &&& a.cursor_state == b.cursor_state
    &&& a.remove_series_selected == b.remove_series_selected
    &&& a.last_frame_rect == b.last_frame_rect
}

/// Whether two series agree in everything but their colour.
pub open spec fn same_but_color(a: DataSeries, b: DataSeries) -> bool {
    &&& a.id == b.id
    &&& a.label == b.label
    &&& a.x == b.x
    &&& a.y == b.y
    &&& a.z == b.z
    &&& a.unit == b.unit
    &&& a.interpolation == b.interpolation
    &&& a.show_dots == b.show_dots
    &&& a.visible == b.visible
    &&& a.line_width == b.line_width
    &&& a.downsampled_x == b.downsampled_x
    &&& a.downsampled_y == b.downsampled_y
    &&& a.needs_resample == b.needs_resample
}

/// Whether `axis` is a fresh axis for `unit`.
pub open spec fn is_fresh_axis(entry: AxisEntry, unit: Seq<char>) -> bool {
    &&& entry.unit@ == unit
    &&& entry.axis.label@ == axis_label(unit)
    &&& entry.axis.auto_range
    &&& entry.axis.min == 0
    &&& entry.axis.max == SCALE
}

impl GraphState {
    /// Position of the axis of `unit`, if the graph has one.
    pub fn find_axis(&self, unit: &str) -> (r: Option<usize>)
        ensures
            match r {
                Some(k) => k < self.y_axes@.len() && k == axis_position(
                    self.y_axes@,
                    unit@,
                    self.y_axes@.len() as int,
                ) && self.y_axes@[k as int].unit@ == unit@,
                None => axis_position(self.y_axes@, unit@, self.y_axes@.len() as int)
                    == self.y_axes@.len() && !has_axis(
                    self.y_axes@,
                    unit@,
                    self.y_axes@.len() as int,
                ),
            },
    {
        let mut k: usize = 0;
        while k < self.y_axes.len()
            invariant
                k <= self.y_axes.len(),
                axis_position(self.y_axes@, unit@, k as int) == k,
                forall|j: int| 0 <= j < k ==> (#[trigger] self.y_axes@[j]).unit@ != unit@,
            decreases self.y_axes.len() - k,
        {
            if same_text(self.y_axes[k].unit.as_str(), unit) {
                proof {
                    lemma_axis_position_stable(self.y_axes@, unit@, k as int, self.y_axes@.len() as int);
                }
                return Some(k);
            }
            k += 1;
        }
        None
    }

    /// Position of the first series with identifier `id`, if there is one.
    pub fn find_series(&self, id: u64) -> (r: Option<usize>)
        ensures
            match r {
                Some(k) => k < self.series@.len() && k == series_position(
                    self.series@,
                    id,
                    self.series@.len() as int,
                ) && self.series@[k as int].id == id,
                None => series_position(self.series@, id, self.series@.len() as int)
                    == self.series@.len() && forall|j: int|
                    0 <= j < self.series@.len() ==> (#[trigger] self.series@[j]).id != id,
            },
    {
        let mut k: usize = 0;
        while k < self.series.len()
            invariant
                k <= self.series.len(),
                series_position(self.series@, id, k as int) == k,
                forall|j: int| 0 <= j < k ==> (#[trigger] self.series@[j]).id != id,
            decreases self.series.len() - k,
        {
            if self.series[k].id == id {
                proof {
                    lemma_series_position_stable(self.series@, id, k as int, self.series@.len() as int);
                }
                return Some(k);
            }
            k += 1;
        }
        None
    }

    /// Whether a series of the graph has the unit `unit`.
    pub fn uses_unit(&self, unit: &str) -> (r: bool)
        ensures
            r == unit_in_use(self.series@, unit@, self.series@.len() as int),
    {
        let mut k: usize = 0;
        while k < self.series.len()
            invariant
                k <= self.series.len(),
                !unit_in_use(self.series@, unit@, k as int),
            decreases self.series.len() - k,
        {
            if same_text(self.series[k].unit.as_str(), unit) {
                assert(self.series@[k as int].unit@ == unit@);
                return true;
            }
            k += 1;
        }
        false
    }

    /// Adds a series to the graph. A series whose colour is all zero gets
    /// the next colour of the palette, and a unit that the graph has no axis
    /// for gets one. The series counter stops at its largest value.
    pub fn add_series(&mut self, series: DataSeries)
        ensures
            same_frame(*final(self), *old(self)),
            ({
                let before = *old(self);
                let after = *final(self);
                let m = before.y_axes@.len() as int;
                &&& after.series@.len() == before.series@.len() + 1
                &&& after.series@.drop_last() == before.series@
                &&& same_but_color(after.series@.last(), series)
                &&& after.series@.last().color@ == assigned_color(
                    series.color@,
                    before.series_counter as int,
                )
                &&& after.series_counter == if before.series_counter < usize::MAX {
                    (before.series_counter + 1) as usize
                } else {
                    usize::MAX
                }
                &&& has_axis(before.y_axes@, series.unit@, m) ==> after.y_axes@ == before.y_axes@
                &&& !has_axis(before.y_axes@, series.unit@, m) ==> after.y_axes@.len() == m + 1
                    && after.y_axes@.drop_last() == before.y_axes@ && is_fresh_axis(
                    after.y_axes@.last(),
                    series.unit@,
                )
            }),
    {
        let mut series = series;
        let ghost own = series.color@;
        if series.color[0] == 0 && series.color[1] == 0 && series.color[2] == 0 && series.color[3]
            == 0 {
            assert(own =~= seq![0u8, 0u8, 0u8, 0u8]);
            series.color = color_for_index(self.series_counter);
        } else {
            assert(own != seq![0u8, 0u8, 0u8, 0u8]) by {
                let zero = seq![0u8, 0u8, 0u8, 0u8];
                if own == zero {
                    assert(own[0] == zero[0] && own[1] == zero[1] && own[2] == zero[2] && own[3]
                        == zero[3]);
                }
            }
        }
        if self.series_counter < usize::MAX {
            self.series_counter = self.series_counter + 1;
        }
        if self.find_axis(series.unit.as_str()).is_none() {
            let mut label = String::from_str("Y Axis (");
            label.append(series.unit.as_str());
            label.append(")");
            let entry = AxisEntry {
                unit: series.unit.clone(),
                axis: AxisState { label, auto_range: true, min: 0, max: SCALE },
            };
            self.y_axes.push(entry);
            assert(self.y_axes@.drop_last() =~= old(self).y_axes@);
        }
        self.series.push(series);
        assert(self.series@.drop_last() =~= old(self).series@);
    }

    /// Removes the first series with identifier `series_id`, and with it the
    /// axis of its unit if no other series has that unit. Without such a
    /// series the graph stays as it is.
    pub fn remove_series_by_id(&mut self, series_id: u64)
        ensures
            same_frame(*final(self), *old(self)),
            final(self).series_counter == old(self).series_counter,
            ({
                let n = old(self).series@.len() as int;
                let p = series_position(old(self).series@, series_id, n);
                if p == n {
                    final(self).series@ == old(self).series@ && final(self).y_axes@ == old(self).y_axes@
                } else {
                    let unit = old(self).series@[p].unit@;
                    let m = old(self).y_axes@.len() as int;
                    let q = axis_position(old(self).y_axes@, unit, m);
                    &&& 0 <= p < n
                    &&& old(self).series@[p].id == series_id
                    &&& final(self).series@ == old(self).series@.remove(p)
                    &&& final(self).y_axes@ == if unit_in_use(final(self).series@, unit, n - 1) || q
                        == m {
                        old(self).y_axes@
                    } else {
                        old(self).y_axes@.remove(q)
                    }
                }
            }),
    {
        match self.find_series(series_id) {
            Some(pos) => {
                let removed = self.series.remove(pos);
                if !self.uses_unit(removed.unit.as_str()) {
                    match self.find_axis(removed.unit.as_str()) {
                        Some(q) => {
                            let _ = self.y_axes.remove(q);
                        },
                        None => {},
                    }
                }
            },
            None => {},
        }
    }
}

/// Once found, the first matching axis stays the first as more axes are considered.
pub proof fn lemma_axis_position_stable(axes: Seq<AxisEntry>, unit: Seq<char>, k: int, upto: int)
    requires
        0 <= k < upto <= axes.len(),
        axis_position(axes, unit, k) == k,
        axes[k].unit@ == unit,
    ensures
        axis_position(axes, unit, upto) == k,
    decreases upto - k,
{
    if upto > k + 1 {
        lemma_axis_position_stable(axes, unit, k, upto - 1);
    }
}

/// Once found, the first matching series stays the first as more series are considered.
pub proof fn lemma_series_position_stable(series: Seq<DataSeries>, id: u64, k: int, upto: int)
    requires
        0 <= k < upto <= series.len(),
        series_position(series, id, k) == k,
        series[k].id == id,
    ensures
        series_position(series, id, upto) == k,
    decreases upto - k,
{
    if upto > k + 1 {
        lemma_series_position_stable(series, id, k, upto - 1);
    }
}

/// The series of a graph after the first series with identifier `id` was removed.
pub open spec fn series_without(series: Seq<DataSeries>, id: u64) -> Seq<DataSeries> {
    let p = series_position(series, id, series.len() as int);
    if p == series.len() {
        series
    } else {
        series.remove(p)
    }
}

/// The axes of a graph after the first series with identifier `id` was
/// removed: without the axis of its unit if no other series has that unit.
pub open spec fn axes_without(series: Seq<DataSeries>, axes: Seq<AxisEntry>, id: u64) -> Seq<AxisEntry> {
    let p = series_position(series, id, series.len() as int);
    if p == series.len() {
        axes
    } else {
        let unit = series[p].unit@;
        let q = axis_position(axes, unit, axes.len() as int);
        if unit_in_use(series.remove(p), unit, series.len() - 1) || q == axes.len() {
            axes
        } else {
            axes.remove(q)
        }
    }
}

/// The identifiers of the ticked ones among the first `upto` series.
pub open spec fn ticked_ids(ticks: Seq<bool>, series: Seq<DataSeries>, upto: int) -> Seq<u64>
    decreases upto,
{
    if upto <= 0 {
        Seq::empty()
    } else {
        let rest = ticked_ids(ticks, series, upto - 1);
        if ticks[upto - 1] && upto - 1 < series.len() {
            rest.push(series[upto - 1].id)
        } else {
            rest
        }
    }
}

/// The series after the series with the first `upto` of `ids` were removed.
pub open spec fn series_after_removals(series: Seq<DataSeries>, ids: Seq<u64>, upto: int) -> Seq<
    DataSeries,
>
    decreases upto,
{
    if upto <= 0 {
        series
    } else {
        series_without(series_after_removals(series, ids, upto - 1), ids[upto - 1])
    }
}

/// The axes after the series with the first `upto` of `ids` were removed.
pub open spec fn axes_after_removals(
    series: Seq<DataSeries>,
    axes: Seq<AxisEntry>,
    ids: Seq<u64>,
    upto: int,
) -> Seq<AxisEntry>
    decreases upto,
{
    if upto <= 0 {
        axes
    } else {
        axes_without(
            series_after_removals(series, ids, upto - 1),
            axes_after_removals(series, axes, ids, upto - 1),
            ids[upto - 1],
        )
    }
}

impl GraphState {
    /// Clears the ticks of the dialog that removes series: one box per
    /// series, none ticked.
    pub fn reset_remove_selection(&mut self)
        ensures
            final(self).remove_series_selected@.len() == old(self).series@.len(),
            forall|k: int|
                0 <= k < final(self).remove_series_selected@.len() ==> !(
                #[trigger] final(self).remove_series_selected@[k]),
            *final(self) == (GraphState {
                remove_series_selected: final(self).remove_series_selected,
                ..*old(self)
            }),
    {
        let mut ticks: Vec<bool> = Vec::new();
        let mut k: usize = 0;
        while k < self.series.len()
            invariant
                k <= self.series.len(),
                ticks@.len() == k,
                forall|j: int| 0 <= j < k ==> !(#[trigger] ticks@[j]),
            decreases self.series.len() - k,
        {
            ticks.push(false);
            k += 1;
        }
        self.remove_series_selected = ticks;
    }

    /// Removes the series that are ticked in the dialog that removes
    /// series, one after the other as [`GraphState::remove_series_by_id`]
    /// does, and clears the ticks.
    pub fn remove_selected_series(&mut self)
        ensures
            *final(self) == (GraphState {
                series: final(self).series,
                y_axes: final(self).y_axes,
                remove_series_selected: final(self).remove_series_selected,
                ..*old(self)
            }),
            ({
                let ids = ticked_ids(
                    old(self).remove_series_selected@,
                    old(self).series@,
                    old(self).remove_series_selected@.len() as int,
                );
                &&& final(self).series@ == series_after_removals(
                    old(self).series@,
                    ids,
                    ids.len() as int,
                )
                &&& final(self).y_axes@ == axes_after_removals(
                    old(self).series@,
                    old(self).y_axes@,
                    ids,
                    ids.len() as int,
                )
            }),
            final(self).remove_series_selected@.len() == final(self).series@.len(),
            forall|k: int|
                0 <= k < final(self).remove_series_selected@.len() ==> !(
                #[trigger] final(self).remove_series_selected@[k]),
    {
        let mut ids: Vec<u64> = Vec::new();
        let mut i: usize = 0;
        while i < self.remove_series_selected.len()
            invariant
                i <= self.remove_series_selected.len(),
                *self == *old(self),
                ids@ == ticked_ids(self.remove_series_selected@, self.series@, i as int),
            decreases self.remove_series_selected.len() - i,
        {
            if self.remove_series_selected[i] && i < self.series.len() {
                ids.push(self.series[i].id);
            }
            i += 1;
        }
        let mut k: usize = 0;
        while k < ids.len()
            invariant
                k <= ids.len(),
                same_frame(*self, *old(self)),
                self.series_counter == old(self).series_counter,
                self.series@ == series_after_removals(old(self).series@, ids@, k as int),
                self.y_axes@ == axes_after_removals(old(self).series@, old(self).y_axes@, ids@, k as int),
            decreases ids.len() - k,
        {
            self.remove_series_by_id(ids[k]);
            k += 1;
        }
        self.reset_remove_selection();
    }
}

} // verus!
