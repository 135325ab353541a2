//! What the application decides between the frames: which graphs are
//! offered for syncing, how a screenshot is cropped, what an export holds.

use vstd::prelude::*;
use vstd::string::StringExecFns;
use crate::data::datetime::{best_format, error_threshold, fix_error_timestamps, format_name,
    format_timestamp, repaired, sample_positions, timestamp_text, DATE_FORMAT_COUNT, SAMPLE_SIZE};
use crate::data::loader::{cell_moment, cell_value, column_to_f64, column_to_timestamps, dated_cells,
    finite_cells, is_mostly, mostly, LoadedData};
use crate::data::unit_inference::infer_unit;
use crate::state::data_series::{color_for_index, next_series_id};
use crate::text::{contains_text, has_substring, lowercase, lowercase_of, same_text};
use crate::ui::data_selection_dialog::ColumnSelection;
use crate::fixed::{all_finite, div_floor, finite, is_finite, narrow, COORD_MAX, SCALE};
use crate::number_text::{digits_text, exact_text, format_exact, nan_text, push_digits};
use crate::render::gpu_types::Rgba;
use crate::render::plot_interaction::ScreenRect;
use crate::state::app_state::{graph_position, AppState};
use crate::state::data_series::DataSeries;
use crate::state::graph_state::GraphState;
use crate::ui::graph_panel::{table_rows, table_row_count, table_value, get_table_value};

verus! {

/// The state of the dialog that chooses the graphs to sync with.
pub struct SyncDialogState {
    /// The graph that asked for syncing.
    pub source_graph_id: u64,
    /// The other graphs: identifier and title.
    pub available_graphs: Vec<(u64, String)>,
    /// Which of the other graphs are ticked.
    pub selected: Vec<bool>,
}

/// The graphs, among the first `upto`, that a graph can sync with: all
/// others, as identifier and title.
pub open spec fn sync_candidates(graphs: Seq<GraphState>, gid: u64, upto: int) -> Seq<(u64, Seq<char>)>
    decreases upto,
{
    if upto <= 0 {
        Seq::empty()
    } else {
        let rest = sync_candidates(graphs, gid, upto - 1);
        if graphs[upto - 1].id != gid {
            rest.push((graphs[upto - 1].id, graphs[upto - 1].title@))
        } else {
            rest
        }
    }
}

/// The entries of a dialog as identifier and title text.
pub open spec fn entries(available: Seq<(u64, String)>) -> Seq<(u64, Seq<char>)> {
    Seq::new(available.len(), |k: int| (available[k].0, available[k].1@))
}

/// The identifiers of the ticked ones among the first `upto` entries.
pub open spec fn ticked(available: Seq<(u64, String)>, selected: Seq<bool>, upto: int) -> Seq<u64>
    decreases upto,
{
    if upto <= 0 {
        Seq::empty()
    } else {
        let rest = ticked(available, selected, upto - 1);
        if selected[upto - 1] {
            rest.push(available[upto - 1].0)
        } else {
            rest
        }
    }
}

impl SyncDialogState {
    /// Whether each entry has a tick box.
    pub open spec fn well_formed(&self) -> bool {
        self.selected@.len() == self.available_graphs@.len()
    }

    /// Checks [`SyncDialogState::well_formed`].
    pub fn is_well_formed(&self) -> (r: bool)
        ensures
            r == self.well_formed(),
    {
        self.selected.len() == self.available_graphs.len()
    }

    /// Opens the dialog for the graph `gid`: it offers all other graphs,
    /// none ticked. None if there is no other graph.
    pub fn open(state: &AppState, gid: u64) -> (r: Option<SyncDialogState>)
        ensures
            match r {
                Some(d) => {
                    &&& d.source_graph_id == gid
                    &&& d.well_formed()
                    &&& d.available_graphs@.len() > 0
                    &&& entries(d.available_graphs@) == sync_candidates(
                        state.graphs@,
                        gid,
                        state.graphs@.len() as int,
                    )
                    &&& forall|k: int| 0 <= k < d.selected@.len() ==> !(#[trigger] d.selected@[k])
                },
                None => sync_candidates(state.graphs@, gid, state.graphs@.len() as int).len() == 0,
            },
    {
        let mut available: Vec<(u64, String)> = Vec::new();
        let mut selected: Vec<bool> = Vec::new();
        let mut i: usize = 0;
        assert(entries(available@) =~= sync_candidates(state.graphs@, gid, 0));
        while i < state.graphs.len()
            invariant
                i <= state.graphs.len(),
                selected@.len() == available@.len(),
                entries(available@) == sync_candidates(state.graphs@, gid, i as int),
                forall|k: int| 0 <= k < selected@.len() ==> !(#[trigger] selected@[k]),
            decreases state.graphs.len() - i,
        {
            let g = &state.graphs[i];
            if g.id != gid {
                let ghost before = entries(available@);
                available.push((g.id, g.title.clone()));
                selected.push(false);
                assert(entries(available@) =~= before.push((g.id, g.title@)));
            }
            i += 1;
        }
        if available.len() == 0 {
            None
        } else {
            Some(SyncDialogState { source_graph_id: gid, available_graphs: available, selected })
        }
    }

    /// The identifiers of the ticked graphs, in the order of the entries.
    pub fn chosen(&self) -> (ids: Vec<u64>)
        requires
            self.well_formed(),
        ensures
            ids@ == ticked(self.available_graphs@, self.selected@, self.selected@.len() as int),
    {
        let mut ids: Vec<u64> = Vec::new();
        let mut i: usize = 0;
        while i < self.selected.len()
            invariant
                i <= self.selected.len(),
                self.selected@.len() == self.available_graphs@.len(),
                ids@ == ticked(self.available_graphs@, self.selected@, i as int),
            decreases self.selected.len() - i,
        {
            if self.selected[i] {
                ids.push(self.available_graphs[i].0);
            }
            i += 1;
        }
        ids
    }
}

// ---------------------------------------------------------------------------
// Layout of the panels
// ---------------------------------------------------------------------------

/// Space between two graph panels: ten pixels.
pub const PANEL_SPACING: i64 = 10_000_000;

/// Smallest height of one of several graph panels: 300 pixels.
pub const MIN_PANEL_HEIGHT: i64 = 300_000_000;

/// The height of a graph panel: the whole viewport for a single graph,
/// else half of it less the spacing, but not less than the minimum.
pub open spec fn panel_height_of(viewport_height: int, graph_count: int) -> int {
    if graph_count <= 1 {
        viewport_height
    } else if (viewport_height - PANEL_SPACING) / 2 < MIN_PANEL_HEIGHT {
        MIN_PANEL_HEIGHT as int
    } else {
        (viewport_height - PANEL_SPACING) / 2
    }
}

/// The height of a graph panel.
pub fn panel_height(viewport_height: i64, graph_count: usize) -> (h: i64)
    ensures
        h == panel_height_of(viewport_height as int, graph_count as int),
{
    if graph_count <= 1 {
        return viewport_height;
    }
    let half = div_floor(viewport_height as i128 - PANEL_SPACING as i128, 2);
    if half < MIN_PANEL_HEIGHT as i128 {
        MIN_PANEL_HEIGHT
    } else {
        half as i64
    }
}

/// The text that tells how many graphs there are.
pub open spec fn count_label(count: int) -> Seq<char> {
    if count == 1 {
        "1 graph"@
    } else {
        digits_text(count) + " graphs"@
    }
}

/// Writes how many graphs there are.
pub fn graph_count_label(count: usize) -> (text: String)
    ensures
        text@ == count_label(count as int),
{
    if count == 1 {
        return "1 graph".to_string();
    }
    let mut text = String::new();
    push_digits(&mut text, count as u128);
    text.append(" graphs");
    text
}

// ---------------------------------------------------------------------------
// Cropping a screenshot
// ---------------------------------------------------------------------------

/// A rectangle of pixels of an image: columns `x0 .. x1`, rows `y0 .. y1`.
#[derive(Debug, Clone, Copy, PartialEq, Eq, Structural)]
pub struct CropRegion {
    pub x0: usize,
    pub y0: usize,
    pub x1: usize,
    pub y1: usize,
}

/// The pixel at or before a position given in points, limited to `0 ..= limit`.
pub open spec fn pixel_floor(points: int, pixels_per_point: int, limit: int) -> int {
    let p = (points * pixels_per_point) / (SCALE * SCALE);
    if p < 0 {
        0
    } else if p > limit {
        limit
    } else {
        p
    }
}

/// The pixel at or after a position given in points, limited to `0 ..= limit`.
pub open spec fn pixel_ceil(points: int, pixels_per_point: int, limit: int) -> int {
    let p = -((-(points * pixels_per_point)) / (SCALE * SCALE));
    if p < 0 {
        0
    } else if p > limit {
        limit
    } else {
        p
    }
}

/// The pixels of an image of `full_w` by `full_h` pixels that a rectangle
/// given in points covers.
pub open spec fn crop_of(rect: ScreenRect, pixels_per_point: int, full_w: int, full_h: int) -> CropRegion {
    CropRegion {
        x0: pixel_floor(rect.left as int, pixels_per_point, full_w) as usize,
        y0: pixel_floor(rect.top as int, pixels_per_point, full_h) as usize,
        x1: pixel_ceil(rect.left + rect.width, pixels_per_point, full_w) as usize,
        y1: pixel_ceil(rect.top + rect.height, pixels_per_point, full_h) as usize,
    }
}

fn to_pixel(points: i128, pixels_per_point: i64, limit: usize, up: bool) -> (p: usize)
    requires
        -2 * COORD_MAX <= points <= 2 * COORD_MAX,
        finite(pixels_per_point as int),
    ensures
        !up ==> p == pixel_floor(points as int, pixels_per_point as int, limit as int),
        up ==> p == pixel_ceil(points as int, pixels_per_point as int, limit as int),
        p <= limit,
{
    assert(-2 * COORD_MAX * COORD_MAX <= points * pixels_per_point <= 2 * COORD_MAX * COORD_MAX)
        by (nonlinear_arith)
        requires
            -2 * COORD_MAX <= points <= 2 * COORD_MAX,
            -COORD_MAX <= pixels_per_point <= COORD_MAX,
    ;
    let product: i128 = points * (pixels_per_point as i128);
    let unit: i128 = 1_000_000_000_000;
    let q: i128 = if up {
        -div_floor(-product, unit)
    } else {
        div_floor(product, unit)
    };
    if q < 0 {
        0
    } else if q > limit as i128 {
        limit
    } else {
        q as usize
    }
}

/// The pixels of a screenshot that the panel of a graph covers.
pub fn crop_region(rect: ScreenRect, pixels_per_point: i64, full_w: usize, full_h: usize) -> (r:
    CropRegion)
    requires
        rect.well_formed(),
        finite(pixels_per_point as int),
    ensures
        r == crop_of(rect, pixels_per_point as int, full_w as int, full_h as int),
        r.x0 <= full_w,
        r.x1 <= full_w,
        r.y0 <= full_h,
        r.y1 <= full_h,
{
    CropRegion {
        x0: to_pixel(rect.left as i128, pixels_per_point, full_w, false),
        y0: to_pixel(rect.top as i128, pixels_per_point, full_h, false),
        x1: to_pixel(rect.left as i128 + rect.width as i128, pixels_per_point, full_w, true),
        y1: to_pixel(rect.top as i128 + rect.height as i128, pixels_per_point, full_h, true),
    }
}

/// The width of a region: zero if it ends before it starts.
pub open spec fn region_width(r: CropRegion) -> int {
    if r.x1 >= r.x0 {
        r.x1 - r.x0
    } else {
        0
    }
}

/// The height of a region: zero if it ends before it starts.
pub open spec fn region_height(r: CropRegion) -> int {
    if r.y1 >= r.y0 {
        r.y1 - r.y0
    } else {
        0
    }
}

/// Channel `c` of a colour: red, green, blue, alpha.
pub open spec fn channel(p: Rgba, c: int) -> u8 {
    if c == 0 {
        p.r
    } else if c == 1 {
        p.g
    } else if c == 2 {
        p.b
    } else {
        p.a
    }
}

/// Byte `k` of the cropped image: the channels of its pixels, row by row.
pub open spec fn cropped_byte(pixels: Seq<Rgba>, full_w: int, r: CropRegion, k: int) -> u8 {
    let w = region_width(r);
    let pixel = k / 4;
    channel(pixels[(r.y0 + pixel / w) * full_w + r.x0 + pixel % w], k % 4)
}

/// The bytes of the cropped image.
pub open spec fn cropped_bytes(pixels: Seq<Rgba>, full_w: int, r: CropRegion) -> Seq<u8> {
    Seq::new(
        (4 * region_width(r) * region_height(r)) as nat,
        |k: int| cropped_byte(pixels, full_w, r, k),
    )
}

/// Cuts a region out of an image of `full_w` pixels per row, as bytes of
/// red, green, blue and alpha, row by row.
pub fn crop_pixels(pixels: &[Rgba], full_w: usize, region: CropRegion) -> (bytes: Vec<u8>)
    requires
        region.x0 <= full_w,
        region.x1 <= full_w,
        region.y1 * full_w <= pixels@.len(),
    ensures
        bytes@ == cropped_bytes(pixels@, full_w as int, region),
{
    let mut bytes: Vec<u8> = Vec::new();
    if region.x1 <= region.x0 || region.y1 <= region.y0 {
        assert(region_width(region) == 0 || region_height(region) == 0);
        assert(4 * region_width(region) * region_height(region) == 0) by (nonlinear_arith)
            requires
                region_width(region) == 0 || region_height(region) == 0,
        ;
        assert(bytes@ =~= cropped_bytes(pixels@, full_w as int, region));
        return bytes;
    }
    let w = region.x1 - region.x0;
    let total = pixels.len();
    let mut row: usize = region.y0;
    while row < region.y1
        invariant
            region.y0 <= row <= region.y1,
            region.x0 < region.x1 <= full_w,
            w == region.x1 - region.x0,
            w == region_width(region),
            region.y1 * full_w <= pixels@.len() <= usize::MAX,
            bytes@.len() == 4 * w * (row - region.y0),
            forall|k: int|
                0 <= k < bytes@.len() ==> bytes@[k] == cropped_byte(
                    pixels@,
                    full_w as int,
                    region,
                    k,
                ),
        decreases region.y1 - row,
    {
        let ghost row_start = bytes@.len() as int;
        let mut col: usize = region.x0;
        proof {
            assert((row + 1) * full_w <= region.y1 * full_w) by (nonlinear_arith)
                requires
                    row + 1 <= region.y1,
                    full_w >= 0,
            ;
            assert((row + 1) * full_w == row * full_w + full_w) by (nonlinear_arith);
            assert(0 <= row * full_w) by (nonlinear_arith)
                requires
                    row >= 0,
                    full_w >= 0,
            ;
        }
        while col < region.x1
            invariant
                region.y0 <= row < region.y1,
                region.x0 <= col <= region.x1 <= full_w,
                region.x0 < region.x1,
                w == region.x1 - region.x0,
                w == region_width(region),
                row * full_w + full_w <= pixels@.len() <= usize::MAX,
                0 <= row * full_w,
                row_start == 4 * w * (row - region.y0),
                bytes@.len() == row_start + 4 * (col - region.x0),
                forall|k: int|
                    0 <= k < bytes@.len() ==> bytes@[k] == cropped_byte(
                        pixels@,
                        full_w as int,
                        region,
                        k,
                    ),
            decreases region.x1 - col,
        {
            let c = pixels[row * full_w + col];
            proof {
                let pixel = w * (row - region.y0) + (col - region.x0);
                assert(bytes@.len() == 4 * pixel) by (nonlinear_arith)
                    requires
                        bytes@.len() == row_start + 4 * (col - region.x0),
                        row_start == 4 * w * (row - region.y0),
                        pixel == w * (row - region.y0) + (col - region.x0),
                ;
                vstd::arithmetic::div_mod::lemma_fundamental_div_mod_converse(
                    pixel,
                    w as int,
                    row - region.y0,
                    col - region.x0,
                );
                assert(w * (row - region.y0) == (row - region.y0) * w) by (nonlinear_arith);
            }
            bytes.push(c.r);
            bytes.push(c.g);
            bytes.push(c.b);
            bytes.push(c.a);
            col += 1;
        }
        proof {
            assert(4 * w * (row + 1 - region.y0) == 4 * w * (row - region.y0) + 4 * w)
                by (nonlinear_arith);
        }
        row += 1;
    }
    proof {
        assert(bytes@.len() == 4 * region_width(region) * region_height(region));
        assert(bytes@ =~= cropped_bytes(pixels@, full_w as int, region));
    }
    bytes
}

// ---------------------------------------------------------------------------
// Syncing
// ---------------------------------------------------------------------------

/// Reacts to the sync button of the graph `gid`: a graph that is synced
/// leaves its group; for one that is not, the dialog that chooses partners
/// is opened, if there is another graph. Nothing happens for an identifier
/// that no graph has.
pub fn toggle_sync(state: &mut AppState, gid: u64) -> (dialog: Option<SyncDialogState>)
    ensures
        final(state).theme == old(state).theme,
        final(state).graph_ids == old(state).graph_ids,
        final(state).series_ids == old(state).series_ids,
        final(state).graphs@.len() == old(state).graphs@.len(),
        ({
            let before = old(state).graphs@;
            let u = graph_position(before, gid, before.len() as int);
            let synced = u < before.len() && before[u].sync_partner_ids@.len() > 0;
            &&& synced ==> dialog.is_none() && forall|k: int|
                0 <= k < before.len() ==> {
                    let a = #[trigger] final(state).graphs@[k];
                    &&& crate::state::app_state::same_but_sync(a, before[k])
                    &&& a.sync_partner_ids@ == crate::state::app_state::unlinked_partners(before, u, k)
                    &&& a.sync_group_id == crate::state::app_state::group_id_of(
                        a.id,
                        a.sync_partner_ids@,
                    )
                }
            &&& !synced ==> final(state).graphs@ == before
            &&& !synced && u < before.len() ==> match dialog {
                Some(d) => d.source_graph_id == gid && d.well_formed() && entries(
                    d.available_graphs@,
                ) == sync_candidates(before, gid, before.len() as int) && d.available_graphs@.len()
                    > 0,
                None => sync_candidates(before, gid, before.len() as int).len() == 0,
            }
            &&& u == before.len() ==> dialog.is_none()
        }),
{
    if state.unlink_graph(gid) {
        return None;
    }
    match state.graph_index(gid) {
        Some(_) => SyncDialogState::open(state, gid),
        None => None,
    }
}

/// Carries out what the sync dialog asks: the source graph and the ticked
/// graphs become one sync group. Without a ticked graph nothing happens,
/// and that is reported.
pub fn apply_sync(state: &mut AppState, dialog: &SyncDialogState) -> (done: bool)
    requires
        dialog.well_formed(),
    ensures
        final(state).theme == old(state).theme,
        final(state).graph_ids == old(state).graph_ids,
        final(state).series_ids == old(state).series_ids,
        final(state).graphs@.len() == old(state).graphs@.len(),
        ({
            let chosen = ticked(
                dialog.available_graphs@,
                dialog.selected@,
                dialog.selected@.len() as int,
            );
            &&& done == (chosen.len() > 0)
            &&& !done ==> final(state).graphs@ == old(state).graphs@
            &&& done ==> forall|k: int|
                0 <= k < old(state).graphs@.len() ==> {
                    let a = #[trigger] final(state).graphs@[k];
                    &&& crate::state::app_state::same_but_sync(a, old(state).graphs@[k])
                    &&& a.sync_partner_ids@ == crate::state::app_state::linked_partners(
                        old(state).graphs@,
                        crate::state::app_state::group_members(dialog.source_graph_id, chosen),
                        k,
                    )
                    &&& a.sync_group_id == crate::state::app_state::group_id_of(
                        a.id,
                        a.sync_partner_ids@,
                    )
                }
        }),
{
    let chosen = dialog.chosen();
    if chosen.len() == 0 {
        return false;
    }
    state.link_graphs(dialog.source_graph_id, &chosen);
    true
}

// ---------------------------------------------------------------------------
// Export as separated text
// ---------------------------------------------------------------------------

/// The header of the export after the first `upto` series: the name of the
/// `x` axis, or `X`, and the label of each series, separated by commas.
pub open spec fn export_header(graph: GraphState, upto: int) -> Seq<char>
    decreases upto,
{
    if upto <= 0 {
        match graph.x_axis_name {
            Some(name) => name@,
            None => "X"@,
        }
    } else {
        export_header(graph, upto - 1) + ","@ + graph.series@[upto - 1].label@
    }
}

/// The `x` of row `row` as the export writes it: as date and time on a date
/// axis, else exactly.
pub open spec fn export_x(graph: GraphState, row: int) -> Seq<char> {
    let x = table_value(graph.series@, 0, row);
    if graph.x_axis_is_datetime == Some(true) {
        timestamp_text(x)
    } else if finite(x as int) {
        exact_text(x as int)
    } else {
        nan_text()
    }
}

/// Row `row` of the export after the first `upto` series: the `x`, then for
/// each series a comma and its `y`, which is left out where it is not finite.
pub open spec fn export_row(graph: GraphState, row: int, upto: int) -> Seq<char>
    decreases upto,
{
    if upto <= 0 {
        export_x(graph, row)
    } else {
        let y = table_value(graph.series@, upto, row);
        export_row(graph, row, upto - 1) + ","@ + if finite(y as int) {
            exact_text(y as int)
        } else {
            Seq::<char>::empty()
        }
    }
}

/// The export after the first `upto` rows: the header and the rows, each
/// ended by a line feed.
pub open spec fn export_text(graph: GraphState, upto: int) -> Seq<char>
    decreases upto,
{
    if upto <= 0 {
        export_header(graph, graph.series@.len() as int) + "\n"@
    } else {
        export_text(graph, upto - 1) + export_row(graph, upto - 1, graph.series@.len() as int)
            + "\n"@
    }
}

/// Writes the data of a graph as separated text: one column for `x` and one
/// for each series. None for a graph without series.
pub fn export_csv(graph: &GraphState) -> (r: Option<String>)
    ensures
        match r {
            Some(text) => graph.series@.len() > 0 && text@ == export_text(
                *graph,
                table_rows(graph.series@, graph.series@.len() as int),
            ),
            None => graph.series@.len() == 0,
        },
{
    let n = graph.series.len();
    if n == 0 {
        return None;
    }
    let mut text = match &graph.x_axis_name {
        Some(name) => name.clone(),
        None => "X".to_string(),
    };
    let mut k: usize = 0;
    while k < n
        invariant
            k <= n,
            n == graph.series@.len(),
            text@ == export_header(*graph, k as int),
        decreases n - k,
    {
        text.append(",");
        text.append(graph.series[k].label.as_str());
        k += 1;
    }
    text.append("\n");
    let is_datetime = match graph.x_axis_is_datetime {
        Some(b) => b,
        None => false,
    };
    let rows = table_row_count(graph);
    let mut row: usize = 0;
    while row < rows
        invariant
            row <= rows,
            n == graph.series@.len(),
            n > 0,
            is_datetime == (graph.x_axis_is_datetime == Some(true)),
            text@ == export_text(*graph, row as int),
        decreases rows - row,
    {
        let ghost before = text@;
        let x = get_table_value(graph, 0, row);
        let x_text = if is_datetime {
            format_timestamp(x)
        } else {
            format_exact(x)
        };
        text.append(x_text.as_str());
        let mut c: usize = 0;
        while c < n
            invariant
                c <= n,
                n == graph.series@.len(),
                text@ == before + export_row(*graph, row as int, c as int),
            decreases n - c,
        {
            let ghost so_far = export_row(*graph, row as int, c as int);
            text.append(",");
            let y = get_table_value(graph, c + 1, row);
            if is_finite(y) {
                text.append(format_exact(y).as_str());
                assert(text@ =~= before + (so_far + ","@ + exact_text(y as int)));
            } else {
                assert(text@ =~= before + (so_far + ","@ + Seq::<char>::empty()));
            }
            c += 1;
        }
        text.append("\n");
        assert(text@ =~= before + export_row(*graph, row as int, n as int) + "\n"@);
        row += 1;
    }
    Some(text)
}

// ---------------------------------------------------------------------------
// Columns of a table as series
// ---------------------------------------------------------------------------

/// The end of the range of timestamps that count as errors of a clock that
/// was not set: the last second of the year 2000.
pub const ERROR_STAMP_MAX: i64 = 978_307_199_000_000;

/// The distance at which repaired timestamps follow one another: ten seconds.
pub const REPAIR_STEP: i64 = 10_000_000;

/// Whether a column is taken for time by its name: it holds `time` or
/// `date` in any case, or is called `RTC-TIME`.
pub open spec fn names_time(name: Seq<char>) -> bool {
    has_substring(lowercase_of(name), "time"@) || has_substring(lowercase_of(name), "date"@) || name
        == "RTC-TIME"@
}

/// The cells of a column as numbers.
pub open spec fn numeric_column(cells: Seq<String>) -> Seq<i64> {
    Seq::new(cells.len(), |k: int| cell_value(cells[k]@))
}

/// The cells of a column as moments by a format.
pub open spec fn dated_column(cells: Seq<String>, format: Seq<char>) -> Seq<i64> {
    Seq::new(cells.len(), |k: int| cell_moment(cells[k]@, format))
}

/// The date format of a column, if most of its cells are dates by the
/// format that reads most of its sample.
pub open spec fn column_date_format(cells: Seq<String>) -> Option<Seq<char>> {
    let sample = sample_positions(cells, SAMPLE_SIZE as int, cells.len() as int);
    let best = best_format(cells, sample, DATE_FORMAT_COUNT as int);
    if best >= -1 && mostly(dated_cells(cells, format_name(best), cells.len() as int), cells.len() as int) {
        Some(format_name(best))
    } else {
        None
    }
}

/// The numbers of the rows as values.
pub open spec fn row_numbers(n: nat) -> Seq<i64> {
    Seq::new(n, |k: int| narrow(k * SCALE))
}

/// The repaired moments of a column.
pub open spec fn repaired_column(stamps: Seq<i64>) -> Seq<i64> {
    Seq::new(stamps.len(), |k: int| repaired(stamps, error_threshold(ERROR_STAMP_MAX), REPAIR_STEP, k))
}

/// The `x` values of a column and whether they are moments: the numbers of
/// a column that is mostly numeric, moments where its name says time; else
/// the repaired moments of a column that is mostly dates; else the numbers
/// of a column whose name says time, and the row numbers of any other.
pub open spec fn resolved_x(name: Seq<char>, cells: Seq<String>) -> (Seq<i64>, bool) {
    if mostly(finite_cells(cells, cells.len() as int), cells.len() as int) {
        (numeric_column(cells), names_time(name))
    } else {
        match column_date_format(cells) {
            Some(format) => (repaired_column(dated_column(cells, format)), true),
            None => if names_time(name) {
                (numeric_column(cells), false)
            } else {
                (row_numbers(cells.len()), false)
            },
        }
    }
}

/// The `x` values of a column and whether they are moments.
pub struct XColumn {
    pub values: Vec<i64>,
    pub is_datetime: bool,
}

/// Whether the name of a column says time.
pub fn is_time_name(name: &str) -> (r: bool)
    ensures
        r == names_time(name@),
{
    let lower = lowercase(name);
    contains_text(lower.as_str(), "time") || contains_text(lower.as_str(), "date") || same_text(
        name,
        "RTC-TIME",
    )
}

/// Turns the column chosen for `x` into values.
pub fn resolve_x_column(name: &str, cells: &[String]) -> (x: XColumn)
    ensures
        (x.values@, x.is_datetime) == resolved_x(name@, cells@),
        x.values@.len() == cells@.len(),
{
    let time_name = is_time_name(name);
    let (numeric, valid) = column_to_f64(cells);
    assert(numeric@ =~= numeric_column(cells@));
    if is_mostly(valid, cells.len()) {
        return XColumn { values: numeric, is_datetime: time_name };
    }
    match column_to_timestamps(cells) {
        Some(t) => {
            let stamps = t.0;
            proof {
                let format = column_date_format(cells@).unwrap();
                assert(stamps@ =~= dated_column(cells@, format));
            }
            let fixed = fix_error_timestamps(stamps.as_slice(), 0, ERROR_STAMP_MAX, REPAIR_STEP);
            assert(fixed@ =~= repaired_column(stamps@));
            XColumn { values: fixed, is_datetime: true }
        },
        None => {
            if time_name {
                XColumn { values: numeric, is_datetime: false }
            } else {
                let mut rows: Vec<i64> = Vec::new();
                let mut k: usize = 0;
                while k < cells.len()
                    invariant
                        k <= cells.len(),
                        rows@.len() == k,
                        forall|j: int| 0 <= j < k ==> #[trigger] rows@[j] == narrow(j * SCALE),
                    decreases cells.len() - k,
                {
                    assert(0 <= k * SCALE <= 0x1_0000_0000_0000_0000 * SCALE) by (nonlinear_arith)
                        requires
                            0 <= k <= 0x1_0000_0000_0000_0000,
                    ;
                    rows.push(crate::fixed::narrow_wide((k as i128) * (SCALE as i128)));
                    k += 1;
                }
                assert(rows@ =~= row_numbers(cells@.len()));
                XColumn { values: rows, is_datetime: false }
            }
        },
    }
}

/// The positions below `upto` at which `x`, `y` and, if there is one, `z`
/// are all finite.
pub open spec fn finite_rows(x: Seq<i64>, y: Seq<i64>, z: Option<Seq<i64>>, upto: int) -> Seq<int>
    decreases upto,
{
    if upto <= 0 {
        Seq::empty()
    } else {
        let rest = finite_rows(x, y, z, upto - 1);
        let k = upto - 1;
        if finite(x[k] as int) && finite(y[k] as int) && match z {
            Some(depth) => finite(depth[k] as int),
            None => true,
        } {
            rest.push(k)
        } else {
            rest
        }
    }
}

/// How many rows `x`, `y` and, if there is one, `z` share.
pub open spec fn shared_len(x: Seq<i64>, y: Seq<i64>, z: Option<Seq<i64>>) -> int {
    let n = if x.len() <= y.len() {
        x.len() as int
    } else {
        y.len() as int
    };
    match z {
        Some(depth) => if depth.len() < n {
            depth.len() as int
        } else {
            n
        },
        None => n,
    }
}

/// The values of `s` at the positions `rows`.
pub open spec fn picked(s: Seq<i64>, rows: Seq<int>) -> Seq<i64> {
    Seq::new(rows.len(), |k: int| s[rows[k]])
}

/// The depth column as a sequence, if there is one.
pub open spec fn depth_of(z: Option<Vec<i64>>) -> Option<Seq<i64>> {
    match z {
        Some(v) => Some(v@),
        None => None,
    }
}

/// The rows of three columns whose values are all finite.
pub struct FiniteRows {
    pub x: Vec<i64>,
    pub y: Vec<i64>,
    /// Empty without a depth column.
    pub z: Vec<i64>,
}

/// Keeps the rows at which `x`, `y` and, if there is one, `z` are all
/// finite: a row with a value that is no number, or of a magnitude above
/// four million million, is left out.
pub fn keep_finite_rows(x: &Vec<i64>, y: &Vec<i64>, z: &Option<Vec<i64>>) -> (r: FiniteRows)
    ensures
        ({
            let rows = finite_rows(x@, y@, depth_of(*z), shared_len(x@, y@, depth_of(*z)));
            &&& r.x@ == picked(x@, rows)
            &&& r.y@ == picked(y@, rows)
            &&& match z {
                Some(depth) => r.z@ == picked(depth@, rows),
                None => r.z@.len() == 0,
            }
        }),
        all_finite(r.x@),
        all_finite(r.y@),
        all_finite(r.z@),
        r.x@.len() == r.y@.len(),
        r.z@.len() == 0 || r.z@.len() == r.x@.len(),
{
    let mut n: usize = if x.len() <= y.len() {
        x.len()
    } else {
        y.len()
    };
    match z {
        Some(depth) => {
            if depth.len() < n {
                n = depth.len();
            }
        },
        None => {},
    }
    let mut fx: Vec<i64> = Vec::new();
    let mut fy: Vec<i64> = Vec::new();
    let mut fz: Vec<i64> = Vec::new();
    let mut k: usize = 0;
    while k < n
        invariant
            k <= n,
            n == shared_len(x@, y@, depth_of(*z)),
            fx@ == picked(x@, finite_rows(x@, y@, depth_of(*z), k as int)),
            fy@ == picked(y@, finite_rows(x@, y@, depth_of(*z), k as int)),
            match z {
                Some(depth) => fz@ == picked(depth@, finite_rows(x@, y@, depth_of(*z), k as int)),
                None => fz@.len() == 0,
            },
            all_finite(fx@),
            all_finite(fy@),
            all_finite(fz@),
        decreases n - k,
    {
        let ghost before = finite_rows(x@, y@, depth_of(*z), k as int);
        let depth_ok = match z {
            Some(depth) => is_finite(depth[k]),
            None => true,
        };
        if is_finite(x[k]) && is_finite(y[k]) && depth_ok {
            fx.push(x[k]);
            fy.push(y[k]);
            match z {
                Some(depth) => {
                    fz.push(depth[k]);
                    assert(fz@ =~= picked(depth@, before.push(k as int)));
                },
                None => {},
            }
            assert(fx@ =~= picked(x@, before.push(k as int)));
            assert(fy@ =~= picked(y@, before.push(k as int)));
        }
        k += 1;
    }
    FiniteRows { x: fx, y: fy, z: fz }
}

/// The title of a graph that shows `y` columns against the column `x`.
pub open spec fn import_title(x: Seq<char>, first_y: Seq<char>, y_count: int) -> Seq<char> {
    if y_count == 1 {
        x + " vs. "@ + first_y
    } else {
        x + " vs. Multiple Data"@
    }
}

/// The label of the series made of a column: its name with its unit in brackets.
pub open spec fn import_label(name: Seq<char>) -> Seq<char> {
    name + " ("@ + crate::data::unit_inference::unit_for(lowercase_of(name)) + ")"@
}

/// The depth values of a selection: the numbers of its `z` column.
pub open spec fn depth_column(data: LoadedData, selection: ColumnSelection) -> Option<Seq<i64>> {
    match selection.z_col_index {
        Some(z) => Some(numeric_column(data.column_data@[z as int]@)),
        None => None,
    }
}

/// The rows that the `k`-th chosen `y` column shares with `x` and `z`
/// and at which all of them are finite.
pub open spec fn import_rows(data: LoadedData, selection: ColumnSelection, x: Seq<i64>, k: int) -> Seq<int> {
    let y = numeric_column(data.column_data@[selection.y_col_indices@[k] as int]@);
    let z = depth_column(data, selection);
    finite_rows(x, y, z, shared_len(x, y, z))
}

/// The positions, among the first `upto` chosen `y` columns, of those that
/// give a series: the ones with at least one row of finite coordinates.
pub open spec fn import_slots(data: LoadedData, selection: ColumnSelection, x: Seq<i64>, upto: int) -> Seq<int>
    decreases upto,
{
    if upto <= 0 {
        Seq::empty()
    } else {
        let rest = import_slots(data, selection, x, upto - 1);
        if import_rows(data, selection, x, upto - 1).len() > 0 {
            rest.push(upto - 1)
        } else {
            rest
        }
    }
}

/// The identifier `steps` after `start`, counting around after the largest.
pub open spec fn later_id(start: u64, steps: int) -> u64 {
    ((start + steps) % 0x1_0000_0000_0000_0000) as u64
}

/// Whether `s` is the series that the `k`-th chosen `y` column gives.
pub open spec fn is_import(s: DataSeries, data: LoadedData, selection: ColumnSelection, x: Seq<i64>, k: int) -> bool {
    let column = selection.y_col_indices@[k] as int;
    let name = data.columns@[column]@;
    let rows = import_rows(data, selection, x, k);
    &&& s.x@ == picked(x, rows)
    &&& s.y@ == picked(numeric_column(data.column_data@[column]@), rows)
    &&& match depth_column(data, selection) {
        Some(depth) => s.z@ == picked(depth, rows),
        None => s.z@.len() == 0,
    }
    &&& s.label@ == import_label(name)
    &&& s.unit@ == crate::data::unit_inference::unit_for(lowercase_of(name))
    &&& s.visible
    &&& s.well_formed()
}

/// Whether the indexes of a selection name columns of a table.
pub open spec fn selection_fits(data: LoadedData, selection: ColumnSelection) -> bool {
    &&& data.columns@.len() == data.column_data@.len()
    &&& selection.x_col_index < data.columns@.len()
    &&& forall|k: int|
        0 <= k < selection.y_col_indices@.len() ==> (#[trigger] selection.y_col_indices@[k])
            < data.columns@.len()
    &&& match selection.z_col_index {
        Some(z) => z < data.columns@.len(),
        None => true,
    }
}

/// Checks whether the indexes of a selection name columns of a table.
pub fn selection_is_valid(data: &LoadedData, selection: &ColumnSelection) -> (r: bool)
    ensures
        r == selection_fits(*data, *selection),
{
    let n = data.columns.len();
    if data.column_data.len() != n || selection.x_col_index >= n {
        return false;
    }
    match selection.z_col_index {
        Some(z) => {
            if z >= n {
                return false;
            }
        },
        None => {},
    }
    let mut k: usize = 0;
    while k < selection.y_col_indices.len()
        invariant
            k <= selection.y_col_indices.len(),
            n == data.columns@.len(),
            n == data.column_data@.len(),
            selection.x_col_index < n,
            match selection.z_col_index {
                Some(z) => z < n,
                None => true,
            },
            forall|j: int| 0 <= j < k ==> (#[trigger] selection.y_col_indices@[j]) < n,
        decreases selection.y_col_indices.len() - k,
    {
        if selection.y_col_indices[k] >= n {
            assert(!(selection.y_col_indices@[k as int] < data.columns@.len()));
            return false;
        }
        k += 1;
    }
    true
}

/// Makes series of the chosen columns of a table and adds them to the
/// graph that the selection names. The `x` column is read as numbers,
/// dates or row numbers; each `y` column gives one series of the rows at
/// which all of its coordinates are finite, with the unit that its name
/// suggests; a `y` column without such a row gives none. A graph without
/// series takes its title and the name of its `x` axis from the columns;
/// a `z` column makes the graph a plot in space. Reports how many series
/// were added; none if no graph has the identifier.
pub fn import_columns(state: &mut AppState, data: &LoadedData, selection: &ColumnSelection) -> (added: usize)
    requires
        selection_fits(*data, *selection),
    ensures
        final(state).theme == old(state).theme,
        final(state).graph_ids == old(state).graph_ids,
        final(state).graphs@.len() == old(state).graphs@.len(),
        added <= selection.y_col_indices@.len(),
        ({
            let before = old(state).graphs@;
            let t = graph_position(before, selection.graph_id, before.len() as int);
            &&& forall|k: int| 0 <= k < before.len() && k != t ==> #[trigger] final(state).graphs@[k] == before[k]
            &&& t == before.len() ==> added == 0 && final(state).series_ids == old(state).series_ids
            &&& t < before.len() ==> {
                let g = final(state).graphs@[t];
                let x_name = data.columns@[selection.x_col_index as int]@;
                let x = resolved_x(x_name, data.column_data@[selection.x_col_index as int]@);
                &&& g.id == before[t].id
                &&& g.sync_partner_ids == before[t].sync_partner_ids
                &&& g.sync_group_id == before[t].sync_group_id
                &&& g.plot_view == before[t].plot_view
                &&& g.camera == before[t].camera
                &&& g.series@.len() == before[t].series@.len() + added
                &&& g.series@.subrange(0, before[t].series@.len() as int) == before[t].series@
                &&& added == import_slots(
                    *data,
                    *selection,
                    x.0,
                    selection.y_col_indices@.len() as int,
                ).len()
                &&& final(state).series_ids == later_id(old(state).series_ids, added as int)
                &&& forall|j: int|
                    0 <= j < added ==> is_import(
                        #[trigger] g.series@[before[t].series@.len() + j],
                        *data,
                        *selection,
                        x.0,
                        import_slots(*data, *selection, x.0, selection.y_col_indices@.len() as int)[j],
                    ) && g.series@[before[t].series@.len() + j].id == later_id(
                        old(state).series_ids,
                        j,
                    )
                &&& before[t].series@.len() == 0 ==> g.x_axis_is_datetime == Some(x.1)
                    && g.x_axis_name.is_some() && g.x_axis_name.unwrap()@ == x_name && (
                selection.y_col_indices@.len() > 0 ==> g.title@ == import_title(
                    x_name,
                    data.columns@[selection.y_col_indices@[0] as int]@,
                    selection.y_col_indices@.len() as int,
                ))
                &&& before[t].series@.len() > 0 ==> g.title == before[t].title && g.x_axis_name
                    == before[t].x_axis_name && g.x_axis_is_datetime == before[t].x_axis_is_datetime
                &&& g.plot_mode == if selection.z_col_index.is_some() {
                    crate::state::data_series::PlotMode::Plot3D
                } else {
                    before[t].plot_mode
                }
            }
        }),
{
    let t = match state.graph_index(selection.graph_id) {
        Some(t) => t,
        None => {
            return 0;
        },
    };
    let x_name = data.columns[selection.x_col_index].as_str();
    let x = resolve_x_column(x_name, data.column_data[selection.x_col_index].as_slice());
    let z: Option<Vec<i64>> = match selection.z_col_index {
        Some(zi) => {
            let depth = column_to_f64(data.column_data[zi].as_slice()).0;
            assert(depth@ =~= numeric_column(data.column_data@[zi as int]@));
            Some(depth)
        },
        None => None,
    };
    assert(depth_of(z) == depth_column(*data, *selection));
    let y_count = selection.y_col_indices.len();
    if state.graphs[t].series.len() == 0 {
        state.graphs[t].x_axis_is_datetime = Some(x.is_datetime);
        state.graphs[t].x_axis_name = Some(data.columns[selection.x_col_index].clone());
        if y_count > 0 {
            let mut title = data.columns[selection.x_col_index].clone();
            if y_count == 1 {
                title.append(" vs. ");
                title.append(data.columns[selection.y_col_indices[0]].as_str());
            } else {
                title.append(" vs. Multiple Data");
            }
            state.graphs[t].title = title;
        }
    }
    if z.is_some() {
        state.graphs[t].plot_mode = crate::state::data_series::PlotMode::Plot3D;
    }
    let ghost prepared = state.graphs@[t as int];
    let ghost base = old(state).graphs@[t as int].series@;
    let mut added: usize = 0;
    let mut k: usize = 0;
    while k < y_count
        invariant
            k <= y_count,
            y_count == selection.y_col_indices@.len(),
            selection_fits(*data, *selection),
            added <= k,
            t < state.graphs@.len(),
            state.theme == old(state).theme,
            state.graph_ids == old(state).graph_ids,
            state.graphs@.len() == old(state).graphs@.len(),
            base == old(state).graphs@[t as int].series@,
            forall|j: int|
                0 <= j < state.graphs@.len() && j != t ==> #[trigger] state.graphs@[j] == old(
                    state,
                ).graphs@[j],
            crate::state::graph_state::same_frame(state.graphs@[t as int], prepared),
            state.graphs@[t as int].series@.len() == base.len() + added,
            state.graphs@[t as int].series@.subrange(0, base.len() as int) == base,
            depth_of(z) == depth_column(*data, *selection),
            added == import_slots(*data, *selection, x.values@, k as int).len(),
            state.series_ids == later_id(old(state).series_ids, added as int),
            forall|j: int|
                0 <= j < added ==> is_import(
                    #[trigger] state.graphs@[t as int].series@[base.len() + j],
                    *data,
                    *selection,
                    x.values@,
                    import_slots(*data, *selection, x.values@, k as int)[j],
                ) && state.graphs@[t as int].series@[base.len() + j].id == later_id(
                    old(state).series_ids,
                    j,
                ),
        decreases y_count - k,
    {
        let yi = selection.y_col_indices[k];
        let y_name = data.columns[yi].as_str();
        let (y_values, _) = column_to_f64(data.column_data[yi].as_slice());
        assert(y_values@ =~= numeric_column(data.column_data@[yi as int]@));
        let rows = keep_finite_rows(&x.values, &y_values, &z);
        let ghost slots_before = import_slots(*data, *selection, x.values@, k as int);
        let ghost kept = import_rows(*data, *selection, x.values@, k as int);
        assert(rows.x@.len() == kept.len());
        if rows.x.len() > 0 {
            let unit = infer_unit(y_name);
            let color = color_for_index(state.graphs[t].series_counter);
            let mut label = data.columns[yi].clone();
            label.append(" (");
            label.append(unit.as_str());
            label.append(")");
            let id = next_series_id(&mut state.series_ids);
            let series = if z.is_some() {
                DataSeries::new_3d(id, label, rows.x, rows.y, rows.z, color, unit)
            } else {
                DataSeries::new(id, label, rows.x, rows.y, color, unit)
            };
            let ghost before_series = state.graphs@[t as int].series@;
            let ghost given = series;
            state.graphs[t].add_series(series);
            proof {
                let after = state.graphs@[t as int].series@;
                let slots_after = import_slots(*data, *selection, x.values@, k + 1);
                assert(slots_after == slots_before.push(k as int));
                assert(after.drop_last() == before_series);
                assert(after.subrange(0, base.len() as int) =~= base) by {
                    assert forall|j: int| 0 <= j < base.len() implies after[j] == base[j] by {
                        assert(after[j] == after.drop_last()[j]);
                        assert(before_series[j] == before_series.subrange(0, base.len() as int)[j]);
                    }
                }
                assert(is_import(after.last(), *data, *selection, x.values@, k as int));
                assert forall|j: int| 0 <= j < added + 1 implies is_import(
                    #[trigger] after[base.len() + j],
                    *data,
                    *selection,
                    x.values@,
                    slots_after[j],
                ) && after[base.len() + j].id == later_id(old(state).series_ids, j) by {
                    if j < added {
                        assert(after[base.len() + j] == after.drop_last()[base.len() + j]);
                        assert(slots_after[j] == slots_before[j]);
                    } else {
                        assert(after[base.len() + j] == after.last());
                    }
                }
            }
            added += 1;
        }
        k += 1;
    }
    added
}

} // verus!
