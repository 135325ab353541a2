//! The graphs of the application and the links between them.

use vstd::prelude::*;
use crate::plot3d::camera::default_camera;
use crate::render::plot_interaction::PlotViewState;
use crate::state::data_series::PlotMode;
use crate::state::graph_state::{next_graph_id, CursorMode, CursorState, GraphState};
use crate::state::theme::Theme;

verus! {

/// The version of the application.
pub const VERSION: &'static str = "0.1.0";

/// Everything the application shows.
pub struct AppState {
    pub graphs: Vec<GraphState>,
    pub theme: Theme,
    /// The identifier that the next graph gets.
    pub graph_ids: u64,
    /// The identifier that the next series gets.
    pub series_ids: u64,
}

// ---------------------------------------------------------------------------
// Model
// ---------------------------------------------------------------------------

/// Position of the first of the first `upto` graphs with identifier `id`; `upto` if none.
pub open spec fn graph_position(graphs: Seq<GraphState>, id: u64, upto: int) -> int
    decreases upto,
{
    if upto <= 0 {
        0
    } else {
        let p = graph_position(graphs, id, upto - 1);
        if p < upto - 1 {
            p
        } else if graphs[upto - 1].id == id {
            upto - 1
        } else {
            upto
        }
    }
}

/// The first `upto` identifiers of `ids` without `id`.
pub open spec fn without_id(ids: Seq<u64>, id: u64, upto: int) -> Seq<u64>
    decreases upto,
{
    if upto <= 0 {
        Seq::empty()
    } else if ids[upto - 1] == id {
        without_id(ids, id, upto - 1)
    } else {
        without_id(ids, id, upto - 1).push(ids[upto - 1])
    }
}

/// The smallest of `own` and the first `upto` identifiers of `partners`.
pub open spec fn least_id(own: u64, partners: Seq<u64>, upto: int) -> u64
    decreases upto,
{
    if upto <= 0 {
        own
    } else {
        let m = least_id(own, partners, upto - 1);
        if partners[upto - 1] < m {
            partners[upto - 1]
        } else {
            m
        }
    }
}

/// The identifier of the sync group of a graph: the smallest identifier
/// among the graph and its partners; none for a graph without partners.
pub open spec fn group_id_of(own: u64, partners: Seq<u64>) -> Option<u64> {
    if partners.len() == 0 {
        None
    } else {
        Some(least_id(own, partners, partners.len() as int))
    }
}

/// Whether two graphs agree in everything but their sync partners and group.
pub open spec fn same_but_sync(a: GraphState, b: GraphState) -> bool {
    &&& a.id == b.id
    &&& a.title == b.title
    &&& a.series == b.series
    &&& a.series_counter == b.series_counter
    &&& a.x_axis_is_datetime == b.x_axis_is_datetime
    &&& a.x_axis_name == b.x_axis_name
    &&& a.x_axis_unit == b.x_axis_unit
    &&& a.auto_scale_y == b.auto_scale_y
    &&& a.y_axes == b.y_axes
    &&& a.show_data_table == b.show_data_table
    &&& a.plot_mode == b.plot_mode
    &&& a.is_updating_range == b.is_updating_range
    &&& a.table_sort == b.table_sort
    &&& a.plot_view == b.plot_view
    &&& a.camera == b.camera
    &&& a.cursor_state == b.cursor_state
    &&& a.remove_series_selected == b.remove_series_selected
    &&& a.last_frame_rect == b.last_frame_rect
}

/// Whether `g` is a fresh, empty graph with identifier `id`.
pub open spec fn is_fresh_graph(g: GraphState, id: u64) -> bool {
    &&& g.id == id
    &&& g.title@ == "Title"@
    &&& g.series@.len() == 0
    &&& g.series_counter == 0
    &&& g.x_axis_is_datetime.is_none()
    &&& g.x_axis_name.is_none()
    &&& g.x_axis_unit.is_none()
    &&& g.auto_scale_y
    &&& g.y_axes@.len() == 0
    &&& g.sync_partner_ids@.len() == 0
    &&& g.sync_group_id.is_none()
    &&& !g.show_data_table
    &&& g.plot_mode == PlotMode::Plot2D
    &&& !g.is_updating_range
    &&& g.table_sort.is_none()
    &&& g.plot_view == PlotViewState::new_spec()
    &&& g.camera == default_camera()
    &&& g.cursor_state == (CursorState { mode: CursorMode::Off, cursor1: None, cursor2: None })
    &&& g.remove_series_selected@.len() == 0
    &&& g.last_frame_rect.is_none()
}

/// The positions, among the first `upto` graphs, of those whose identifier is not `id`.
pub open spec fn kept_positions(graphs: Seq<GraphState>, id: u64, upto: int) -> Seq<int>
    decreases upto,
{
    if upto <= 0 {
        Seq::empty()
    } else if graphs[upto - 1].id == id {
        kept_positions(graphs, id, upto - 1)
    } else {
        kept_positions(graphs, id, upto - 1).push(upto - 1)
    }
}

/// Once found, the first matching graph stays the first as more graphs are considered.
pub proof fn lemma_graph_position_stable(graphs: Seq<GraphState>, id: u64, k: int, upto: int)
    requires
        0 <= k < upto <= graphs.len(),
        graph_position(graphs, id, k) == k,
        graphs[k].id == id,
    ensures
        graph_position(graphs, id, upto) == k,
    decreases upto - k,
{
    if upto > k + 1 {
        lemma_graph_position_stable(graphs, id, k, upto - 1);
    }
}

/// The group identifier is at most the graph's own identifier and at most
/// every partner's, and it is one of them.
pub proof fn lemma_least_id(own: u64, partners: Seq<u64>, upto: int)
    requires
        0 <= upto <= partners.len(),
    ensures
        least_id(own, partners, upto) <= own,
        forall|k: int| 0 <= k < upto ==> least_id(own, partners, upto) <= #[trigger] partners[k],
        least_id(own, partners, upto) == own || exists|k: int|
            0 <= k < upto && #[trigger] partners[k] == least_id(own, partners, upto),
    decreases upto,
{
    if upto > 0 {
        lemma_least_id(own, partners, upto - 1);
        let m = least_id(own, partners, upto - 1);
        if partners[upto - 1] < m {
            assert(partners[upto - 1] == least_id(own, partners, upto));
        } else if m != own {
            let k = choose|k: int| 0 <= k < upto - 1 && #[trigger] partners[k] == m;
            assert(partners[k] == least_id(own, partners, upto));
        }
    }
}

// ---------------------------------------------------------------------------
// Executable code
// ---------------------------------------------------------------------------

/// A copy of `ids` without `id`.
pub fn remove_id(ids: &Vec<u64>, id: u64) -> (out: Vec<u64>)
    ensures
        out@ == without_id(ids@, id, ids@.len() as int),
{
    let mut out: Vec<u64> = Vec::new();
    let mut i: usize = 0;
    while i < ids.len()
        invariant
            i <= ids.len(),
            out@ == without_id(ids@, id, i as int),
        decreases ids.len() - i,
    {
        if ids[i] != id {
            out.push(ids[i]);
        }
        i += 1;
    }
    out
}

/// Whether `ids` holds `id`.
pub fn contains_id(ids: &Vec<u64>, id: u64) -> (r: bool)
    ensures
        r == ids@.contains(id),
{
    let mut i: usize = 0;
    while i < ids.len()
        invariant
            i <= ids.len(),
            forall|k: int| 0 <= k < i ==> ids@[k] != id,
        decreases ids.len() - i,
    {
        if ids[i] == id {
            return true;
        }
        i += 1;
    }
    false
}

/// The sync group identifier of a graph with identifier `own` and the given partners.
pub fn group_id_for(own: u64, partners: &Vec<u64>) -> (r: Option<u64>)
    ensures
        r == group_id_of(own, partners@),
{
    if partners.len() == 0 {
        return None;
    }
    let mut m: u64 = own;
    let mut i: usize = 0;
    while i < partners.len()
        invariant
            i <= partners.len(),
            m == least_id(own, partners@, i as int),
        decreases partners.len() - i,
    {
        if partners[i] < m {
            m = partners[i];
        }
        i += 1;
    }
    Some(m)
}

impl AppState {
    /// The application as it starts: one empty graph, the dark theme.
    pub fn new() -> (s: AppState)
        ensures
            s.graphs@.len() == 1,
            is_fresh_graph(s.graphs@[0], 1),
            s.theme == Theme::Dark,
            s.graph_ids == 2,
            s.series_ids == 1,
    {
        let mut graphs: Vec<GraphState> = Vec::new();
        graphs.push(GraphState::new(1));
        AppState { graphs, theme: Theme::Dark, graph_ids: 2, series_ids: 1 }
    }

    /// Appends an empty graph with the next identifier and hands it out.
    pub fn add_graph(&mut self) -> (g: &mut GraphState)
        ensures
            is_fresh_graph(*g, old(self).graph_ids),
            final(self).graphs@ == old(self).graphs@.push(*final(g)),
            final(self).theme == old(self).theme,
            final(self).series_ids == old(self).series_ids,
            final(self).graph_ids == if old(self).graph_ids == u64::MAX {
                0
            } else {
                (old(self).graph_ids + 1) as u64
            },
    {
        let id = next_graph_id(&mut self.graph_ids);
        self.graphs.push(GraphState::new(id));
        let last = self.graphs.len() - 1;
        &mut self.graphs[last]
    }

    /// Position of the first graph with identifier `id`, if there is one.
    pub fn graph_index(&self, id: u64) -> (r: Option<usize>)
        ensures
            match r {
                Some(k) => k < self.graphs@.len() && k == graph_position(
                    self.graphs@,
                    id,
                    self.graphs@.len() as int,
                ) && self.graphs@[k as int].id == id,
                None => graph_position(self.graphs@, id, self.graphs@.len() as int)
                    == self.graphs@.len() && forall|j: int|
                    0 <= j < self.graphs@.len() ==> (#[trigger] self.graphs@[j]).id != id,
            },
    {
        let mut k: usize = 0;
        while k < self.graphs.len()
            invariant
                k <= self.graphs.len(),
                graph_position(self.graphs@, id, k as int) == k,
                forall|j: int| 0 <= j < k ==> (#[trigger] self.graphs@[j]).id != id,
            decreases self.graphs.len() - k,
        {
            if self.graphs[k].id == id {
                proof {
                    lemma_graph_position_stable(self.graphs@, id, k as int, self.graphs@.len() as int);
                }
                return Some(k);
            }
            k += 1;
        }
        None
    }

    /// The first graph with identifier `id`, if there is one.
    pub fn graph_by_id(&self, id: u64) -> (r: Option<&GraphState>)
        ensures
            match r {
                Some(g) => {
                    let k = graph_position(self.graphs@, id, self.graphs@.len() as int);
                    k < self.graphs@.len() && *g == self.graphs@[k] && g.id == id
                },
                None => forall|j: int|
                    0 <= j < self.graphs@.len() ==> (#[trigger] self.graphs@[j]).id != id,
            },
    {
        match self.graph_index(id) {
            Some(k) => Some(&self.graphs[k]),
            None => None,
        }
    }

    /// The first graph with identifier `id`, if there is one, for changing it.
    pub fn graph_by_id_mut(&mut self, id: u64) -> (r: Option<&mut GraphState>)
        ensures
            final(self).theme == old(self).theme,
            final(self).graph_ids == old(self).graph_ids,
            final(self).series_ids == old(self).series_ids,
            match r {
                Some(g) => {
                    let k = graph_position(old(self).graphs@, id, old(self).graphs@.len() as int);
                    &&& k < old(self).graphs@.len()
                    &&& *g == old(self).graphs@[k]
                    &&& g.id == id
                    &&& final(self).graphs@ == old(self).graphs@.update(k, *final(g))
                },
                None => final(self).graphs@ == old(self).graphs@ && forall|j: int|
                    0 <= j < old(self).graphs@.len() ==> (#[trigger] old(self).graphs@[j]).id != id,
            },
    {
        match self.graph_index(id) {
            Some(k) => Some(&mut self.graphs[k]),
            None => None,
        }
    }

    /// Sets the sync group of every graph: the smallest identifier among the
    /// graph and its partners, none for a graph without partners.
    pub fn recompute_sync_groups(&mut self)
        ensures
            final(self).theme == old(self).theme,
            final(self).graph_ids == old(self).graph_ids,
            final(self).series_ids == old(self).series_ids,
            final(self).graphs@.len() == old(self).graphs@.len(),
            forall|k: int|
                0 <= k < old(self).graphs@.len() ==> {
                    let a = #[trigger] final(self).graphs@[k];
                    let b = old(self).graphs@[k];
                    &&& same_but_sync(a, b)
                    &&& a.sync_partner_ids == b.sync_partner_ids
                    &&& a.sync_group_id == group_id_of(b.id, b.sync_partner_ids@)
                },
    {
        let mut i: usize = 0;
        while i < self.graphs.len()
            invariant
                i <= self.graphs.len(),
                self.theme == old(self).theme,
                self.graph_ids == old(self).graph_ids,
                self.series_ids == old(self).series_ids,
                self.graphs@.len() == old(self).graphs@.len(),
                forall|k: int| i <= k < self.graphs@.len() ==> self.graphs@[k] == old(self).graphs@[k],
                forall|k: int|
                    0 <= k < i ==> {
                        let a = #[trigger] self.graphs@[k];
                        let b = old(self).graphs@[k];
                        &&& same_but_sync(a, b)
                        &&& a.sync_partner_ids == b.sync_partner_ids
                        &&& a.sync_group_id == group_id_of(b.id, b.sync_partner_ids@)
                    },
            decreases self.graphs.len() - i,
        {
            let group = group_id_for(self.graphs[i].id, &self.graphs[i].sync_partner_ids);
            self.graphs[i].sync_group_id = group;
            i += 1;
        }
    }
}

/// Whether the `x` window of a graph changed and has partners to follow it.
pub open spec fn announces(g: GraphState) -> bool {
    g.sync_partner_ids@.len() > 0 && g.plot_view.x_range_changed_spec()
}

/// Whether a change of graph `s` reaches graph `t`: `s` announces a change
/// and names the identifier of `t`, and `t` is the first graph with it.
pub open spec fn reaches(graphs: Seq<GraphState>, s: int, t: int) -> bool {
    &&& announces(graphs[s])
    &&& graphs[s].sync_partner_ids@.contains(graphs[t].id)
    &&& graph_position(graphs, graphs[t].id, graphs.len() as int) == t
}

/// The graph whose `x` window graph `t` takes over in this frame: the last
/// of the first `upto` graphs whose change reaches `t`; `-1` if none does.
pub open spec fn sync_source(graphs: Seq<GraphState>, t: int, upto: int) -> int
    decreases upto,
{
    if upto <= 0 {
        -1
    } else if reaches(graphs, upto - 1, t) {
        upto - 1
    } else {
        sync_source(graphs, t, upto - 1)
    }
}

/// The view of graph `t` after the sync pass of a frame: the `x` window of
/// its source as it was before the pass, or its own, and that window as the
/// snapshot for the next frame.
pub open spec fn synced_view(graphs: Seq<GraphState>, t: int) -> PlotViewState {
    let src = sync_source(graphs, t, graphs.len() as int);
    let own = graphs[t].plot_view;
    if src >= 0 {
        PlotViewState {
            x_min: graphs[src].plot_view.x_min,
            x_max: graphs[src].plot_view.x_max,
            prev_x_min: graphs[src].plot_view.x_min,
            prev_x_max: graphs[src].plot_view.x_max,
            ..own
        }
    } else {
        PlotViewState { prev_x_min: own.x_min, prev_x_max: own.x_max, ..own }
    }
}

/// Whether two graphs agree in everything but their view.
pub open spec fn same_but_view(a: GraphState, b: GraphState) -> bool {
    &&& a.id == b.id
    &&& a.title == b.title
    &&& a.series == b.series
    &&& a.series_counter == b.series_counter
    &&& a.x_axis_is_datetime == b.x_axis_is_datetime
    &&& a.x_axis_name == b.x_axis_name
    &&& a.x_axis_unit == b.x_axis_unit
    &&& a.auto_scale_y == b.auto_scale_y
    &&& a.y_axes == b.y_axes
    &&& a.sync_partner_ids == b.sync_partner_ids
    &&& a.sync_group_id == b.sync_group_id
    &&& a.show_data_table == b.show_data_table
    &&& a.plot_mode == b.plot_mode
    &&& a.is_updating_range == b.is_updating_range
    &&& a.table_sort == b.table_sort
    &&& a.camera == b.camera
    &&& a.cursor_state == b.cursor_state
    &&& a.remove_series_selected == b.remove_series_selected
    &&& a.last_frame_rect == b.last_frame_rect
}

/// The source of a graph is a graph before `upto` whose change reaches it,
/// and no later graph before `upto` reaches it.
pub proof fn lemma_sync_source(graphs: Seq<GraphState>, t: int, upto: int)
    requires
        0 <= upto <= graphs.len(),
    ensures
        -1 <= sync_source(graphs, t, upto) < upto,
        sync_source(graphs, t, upto) >= 0 ==> reaches(graphs, sync_source(graphs, t, upto), t),
        forall|s: int| sync_source(graphs, t, upto) < s < upto ==> !reaches(graphs, s, t),
    decreases upto,
{
    if upto > 0 && !reaches(graphs, upto - 1, t) {
        lemma_sync_source(graphs, t, upto - 1);
    }
}

/// When exactly one graph announces a change, every partner of it that is
/// the first graph with its identifier shows that graph's `x` window after
/// the pass, and so does the graph itself.
pub proof fn lemma_single_change_reaches_partners(graphs: Seq<GraphState>, s: int, t: int)
    requires
        0 <= s < graphs.len(),
        0 <= t < graphs.len(),
        announces(graphs[s]),
        forall|k: int| 0 <= k < graphs.len() && k != s ==> !announces(#[trigger] graphs[k]),
        graphs[s].sync_partner_ids@.contains(graphs[t].id),
        graph_position(graphs, graphs[t].id, graphs.len() as int) == t,
    ensures
        synced_view(graphs, t).x_min == graphs[s].plot_view.x_min,
        synced_view(graphs, t).x_max == graphs[s].plot_view.x_max,
        synced_view(graphs, s).x_min == graphs[s].plot_view.x_min,
        synced_view(graphs, s).x_max == graphs[s].plot_view.x_max,
        !synced_view(graphs, t).x_range_changed_spec(),
{
    let n = graphs.len() as int;
    lemma_sync_source(graphs, t, n);
    lemma_sync_source(graphs, s, n);
    assert(reaches(graphs, s, t));
    let src = sync_source(graphs, t, n);
    if src != s {
        assert(src >= 0 ==> announces(graphs[src]));
    }
    let own = sync_source(graphs, s, n);
    if own >= 0 && own != s {
        assert(announces(graphs[own]));
    }
}

impl AppState {
    /// Removes every graph with identifier `graph_id`, takes the identifier
    /// out of the partner lists of the others, and sets their sync groups.
    pub fn remove_graph(&mut self, graph_id: u64)
        ensures
            final(self).theme == old(self).theme,
            final(self).graph_ids == old(self).graph_ids,
            final(self).series_ids == old(self).series_ids,
            ({
                let before = old(self).graphs@;
                let after = final(self).graphs@;
                let kept = kept_positions(before, graph_id, before.len() as int);
                &&& after.len() == kept.len()
                &&& forall|j: int|
                    0 <= j < after.len() ==> {
                        let a = #[trigger] after[j];
                        let b = before[kept[j]];
                        &&& 0 <= kept[j] < before.len()
                        &&& same_but_sync(a, b)
                        &&& a.id != graph_id
                        &&& a.sync_partner_ids@ == without_id(
                            b.sync_partner_ids@,
                            graph_id,
                            b.sync_partner_ids@.len() as int,
                        )
                        &&& a.sync_group_id == group_id_of(a.id, a.sync_partner_ids@)
                    }
            }),
    {
        let ghost before = self.graphs@;
        let ghost mut consumed: int = 0;
        let mut i: usize = 0;
        while i < self.graphs.len()
            invariant
                before == old(self).graphs@,
                self.theme == old(self).theme,
                self.graph_ids == old(self).graph_ids,
                self.series_ids == old(self).series_ids,
                0 <= i <= consumed <= before.len(),
                self.graphs@.len() == before.len() - (consumed - i),
                i == kept_positions(before, graph_id, consumed).len(),
                forall|j: int|
                    i <= j < self.graphs@.len() ==> self.graphs@[j] == before[j + (consumed - i)],
                forall|j: int|
                    0 <= j < i ==> {
                        let a = #[trigger] self.graphs@[j];
                        let b = before[kept_positions(before, graph_id, consumed)[j]];
                        &&& 0 <= kept_positions(before, graph_id, consumed)[j] < before.len()
                        &&& same_but_sync(a, b)
                        &&& a.id != graph_id
                        &&& a.sync_group_id == b.sync_group_id
                        &&& a.sync_partner_ids@ == without_id(
                            b.sync_partner_ids@,
                            graph_id,
                            b.sync_partner_ids@.len() as int,
                        )
                    },
            decreases self.graphs.len() - i,
        {
            let ghost kept_before = kept_positions(before, graph_id, consumed);
            if self.graphs[i].id == graph_id {
                let _ = self.graphs.remove(i);
                proof {
                    consumed = consumed + 1;
                }
            } else {
                let filtered = remove_id(&self.graphs[i].sync_partner_ids, graph_id);
                self.graphs[i].sync_partner_ids = filtered;
                proof {
                    let kept_after = kept_positions(before, graph_id, consumed + 1);
                    assert(kept_after == kept_before.push(consumed));
                    assert forall|j: int| 0 <= j < i + 1 implies {
                        let a = #[trigger] self.graphs@[j];
                        let b = before[kept_after[j]];
                        &&& 0 <= kept_after[j] < before.len()
                        &&& same_but_sync(a, b)
                        &&& a.id != graph_id
                        &&& a.sync_group_id == b.sync_group_id
                        &&& a.sync_partner_ids@ == without_id(
                            b.sync_partner_ids@,
                            graph_id,
                            b.sync_partner_ids@.len() as int,
                        )
                    } by {
                        if j < i {
                            assert(kept_after[j] == kept_before[j]);
                        }
                    }
                    consumed = consumed + 1;
                }
                i += 1;
            }
        }
        let ghost middle = self.graphs@;
        self.recompute_sync_groups();
        proof {
            let kept = kept_positions(before, graph_id, before.len() as int);
            assert forall|j: int| 0 <= j < self.graphs@.len() implies {
                let a = #[trigger] self.graphs@[j];
                let b = before[kept[j]];
                &&& 0 <= kept[j] < before.len()
                &&& same_but_sync(a, b)
                &&& a.id != graph_id
                &&& a.sync_partner_ids@ == without_id(
                    b.sync_partner_ids@,
                    graph_id,
                    b.sync_partner_ids@.len() as int,
                )
                &&& a.sync_group_id == group_id_of(a.id, a.sync_partner_ids@)
            } by {
                let m = middle[j];
                assert(same_but_sync(self.graphs@[j], m));
            }
        }
    }

    /// The graph whose `x` window graph `t` takes over in this frame, if any.
    pub fn find_sync_source(&self, t: usize) -> (r: Option<usize>)
        requires
            t < self.graphs@.len(),
        ensures
            match r {
                Some(s) => s as int == sync_source(self.graphs@, t as int, self.graphs@.len() as int)
                    && s < self.graphs@.len(),
                None => sync_source(self.graphs@, t as int, self.graphs@.len() as int) == -1,
            },
    {
        let id = self.graphs[t].id;
        let first = self.graph_index(id);
        let is_first = match first {
            Some(k) => k == t,
            None => false,
        };
        let mut found: Option<usize> = None;
        let mut s: usize = 0;
        while s < self.graphs.len()
            invariant
                s <= self.graphs.len(),
                t < self.graphs@.len(),
                id == self.graphs@[t as int].id,
                is_first == (graph_position(self.graphs@, id, self.graphs@.len() as int) == t),
                match found {
                    Some(k) => k as int == sync_source(self.graphs@, t as int, s as int) && k < s,
                    None => sync_source(self.graphs@, t as int, s as int) == -1,
                },
            decreases self.graphs.len() - s,
        {
            let g = &self.graphs[s];
            if is_first && g.sync_partner_ids.len() > 0 && g.plot_view.x_range_changed()
                && contains_id(&g.sync_partner_ids, id) {
                found = Some(s);
            }
            s += 1;
        }
        found
    }

    /// The sync pass of a frame. First, from the state as the frame left
    /// it, each graph's source is collected: the last graph whose `x` window
    /// changed since its snapshot and that names the graph as a partner.
    /// Then each graph takes over the window of its source, and all
    /// snapshots are renewed, so that no graph reacts in the next frame to a
    /// change that reached it in this one.
    pub fn propagate_sync(&mut self)
        ensures
            final(self).theme == old(self).theme,
            final(self).graph_ids == old(self).graph_ids,
            final(self).series_ids == old(self).series_ids,
            final(self).graphs@.len() == old(self).graphs@.len(),
            forall|t: int|
                0 <= t < old(self).graphs@.len() ==> {
                    let a = #[trigger] final(self).graphs@[t];
                    &&& same_but_view(a, old(self).graphs@[t])
                    &&& a.plot_view == synced_view(old(self).graphs@, t)
                    &&& !a.plot_view.x_range_changed_spec()
                },
    {
        let n = self.graphs.len();
        let mut windows: Vec<Option<(i64, i64)>> = Vec::new();
        let mut t: usize = 0;
        while t < n
            invariant
                t <= n,
                n == self.graphs@.len(),
                self.graphs@ == old(self).graphs@,
                self.theme == old(self).theme,
                self.graph_ids == old(self).graph_ids,
                self.series_ids == old(self).series_ids,
                windows@.len() == t,
                forall|k: int|
                    0 <= k < t ==> {
                        let src = sync_source(self.graphs@, k, n as int);
                        match #[trigger] windows@[k] {
                            Some(w) => src >= 0 && w.0 == self.graphs@[src].plot_view.x_min && w.1
                                == self.graphs@[src].plot_view.x_max,
                            None => src == -1,
                        }
                    },
            decreases n - t,
        {
            proof {
                lemma_sync_source(self.graphs@, t as int, n as int);
            }
            let w = match self.find_sync_source(t) {
                Some(s) => Some((self.graphs[s].plot_view.x_min, self.graphs[s].plot_view.x_max)),
                None => None,
            };
            windows.push(w);
            t += 1;
        }
        let mut k: usize = 0;
        while k < n
            invariant
                k <= n,
                n == self.graphs@.len(),
                n == old(self).graphs@.len(),
                windows@.len() == n,
                self.theme == old(self).theme,
                self.graph_ids == old(self).graph_ids,
                self.series_ids == old(self).series_ids,
                forall|j: int| k <= j < n ==> self.graphs@[j] == old(self).graphs@[j],
                forall|j: int|
                    0 <= j < n ==> {
                        let src = sync_source(old(self).graphs@, j, n as int);
                        match #[trigger] windows@[j] {
                            Some(w) => src >= 0 && w.0 == old(self).graphs@[src].plot_view.x_min
                                && w.1 == old(self).graphs@[src].plot_view.x_max,
                            None => src == -1,
                        }
                    },
                forall|j: int|
                    0 <= j < k ==> {
                        let a = #[trigger] self.graphs@[j];
                        &&& same_but_view(a, old(self).graphs@[j])
                        &&& a.plot_view == synced_view(old(self).graphs@, j)
                    },
            decreases n - k,
        {
            match windows[k] {
                Some(w) => {
                    self.graphs[k].plot_view.x_min = w.0;
                    self.graphs[k].plot_view.x_max = w.1;
                },
                None => {},
            }
            self.graphs[k].plot_view.snapshot_x_range();
            k += 1;
        }
    }
}

/// `partners` extended by those of the first `upto` identifiers of `group`
/// that are neither `own` nor already present.
pub open spec fn extended_partners(partners: Seq<u64>, group: Seq<u64>, own: u64, upto: int) -> Seq<
    u64,
>
    decreases upto,
{
    if upto <= 0 {
        partners
    } else {
        let p = extended_partners(partners, group, own, upto - 1);
        if group[upto - 1] != own && !p.contains(group[upto - 1]) {
            p.push(group[upto - 1])
        } else {
            p
        }
    }
}

/// The members of a new sync group: the source and the chosen partners.
pub open spec fn group_members(source_id: u64, partner_ids: Seq<u64>) -> Seq<u64> {
    seq![source_id] + partner_ids
}

/// The partner list of graph `k` after the graphs named in `group` were linked.
pub open spec fn linked_partners(graphs: Seq<GraphState>, group: Seq<u64>, k: int) -> Seq<u64> {
    if group.contains(graphs[k].id) && graph_position(graphs, graphs[k].id, graphs.len() as int)
        == k {
        extended_partners(graphs[k].sync_partner_ids@, group, graphs[k].id, group.len() as int)
    } else {
        graphs[k].sync_partner_ids@
    }
}

/// The partner list of graph `k` after graph `u` left its sync group.
pub open spec fn unlinked_partners(graphs: Seq<GraphState>, u: int, k: int) -> Seq<u64> {
    if k == u {
        Seq::empty()
    } else if graphs[u].sync_partner_ids@.contains(graphs[k].id) && graph_position(
        graphs,
        graphs[k].id,
        graphs.len() as int,
    ) == k {
        without_id(
            graphs[k].sync_partner_ids@,
            graphs[u].id,
            graphs[k].sync_partner_ids@.len() as int,
        )
    } else {
        graphs[k].sync_partner_ids@
    }
}

/// Where a graph dragged from position `from` lands when it is dropped at
/// slot `to` of a list of `len` graphs.
pub open spec fn landing_position(from: int, to: int, len: int) -> int {
    let at = if to > from {
        to - 1
    } else {
        to
    };
    if at > len - 1 {
        len - 1
    } else {
        at
    }
}

/// The slot that a drop on the panel at position `idx` aims at: before the
/// panel in its upper half, after it in its lower half; none where the
/// dragged graph would stay in place.
pub open spec fn drop_slot(top_half: bool, idx: int, from: int) -> Option<int> {
    let to = if top_half {
        idx
    } else {
        idx + 1
    };
    if to == from || to == from + 1 {
        None
    } else {
        Some(to)
    }
}

/// The slot that a drop on the panel at position `idx` aims at.
pub fn drop_target(top_half: bool, idx: usize, from: usize) -> (r: Option<usize>)
    requires
        idx < usize::MAX,
    ensures
        match r {
            Some(to) => drop_slot(top_half, idx as int, from as int) == Some(to as int),
            None => drop_slot(top_half, idx as int, from as int).is_none(),
        },
{
    let to = if top_half {
        idx
    } else {
        idx + 1
    };
    if to == from || (from < usize::MAX && to == from + 1) {
        None
    } else {
        Some(to)
    }
}

fn extend_partners(partners: &mut Vec<u64>, group: &Vec<u64>, own: u64)
    ensures
        final(partners)@ == extended_partners(old(partners)@, group@, own, group@.len() as int),
{
    let mut i: usize = 0;
    while i < group.len()
        invariant
            i <= group.len(),
            partners@ == extended_partners(old(partners)@, group@, own, i as int),
        decreases group.len() - i,
    {
        let other = group[i];
        if other != own && !contains_id(partners, other) {
            partners.push(other);
        }
        i += 1;
    }
}

impl AppState {
    /// Links the graph `source_id` and the graphs `partner_ids` into one
    /// sync group: every one of them that exists gets every other one as a
    /// partner, unless it has it already. Then the sync groups are set.
    pub fn link_graphs(&mut self, source_id: u64, partner_ids: &Vec<u64>)
        ensures
            final(self).theme == old(self).theme,
            final(self).graph_ids == old(self).graph_ids,
            final(self).series_ids == old(self).series_ids,
            final(self).graphs@.len() == old(self).graphs@.len(),
            forall|k: int|
                0 <= k < old(self).graphs@.len() ==> {
                    let a = #[trigger] final(self).graphs@[k];
                    &&& same_but_sync(a, old(self).graphs@[k])
                    &&& a.sync_partner_ids@ == linked_partners(
                        old(self).graphs@,
                        group_members(source_id, partner_ids@),
                        k,
                    )
                    &&& a.sync_group_id == group_id_of(a.id, a.sync_partner_ids@)
                },
    {
        let mut group: Vec<u64> = Vec::new();
        group.push(source_id);
        let mut i: usize = 0;
        while i < partner_ids.len()
            invariant
                i <= partner_ids.len(),
                group@ == seq![source_id] + partner_ids@.subrange(0, i as int),
            decreases partner_ids.len() - i,
        {
            group.push(partner_ids[i]);
            assert(group@ =~= seq![source_id] + partner_ids@.subrange(0, i + 1));
            i += 1;
        }
        assert(partner_ids@.subrange(0, partner_ids@.len() as int) =~= partner_ids@);
        let n = self.graphs.len();
        let mut k: usize = 0;
        while k < n
            invariant
                k <= n,
                n == self.graphs@.len(),
                n == old(self).graphs@.len(),
                group@ == group_members(source_id, partner_ids@),
                self.theme == old(self).theme,
                self.graph_ids == old(self).graph_ids,
                self.series_ids == old(self).series_ids,
                forall|j: int| k <= j < n ==> self.graphs@[j] == old(self).graphs@[j],
                forall|j: int| 0 <= j < n ==> (#[trigger] self.graphs@[j]).id == old(self).graphs@[j].id,
                forall|j: int|
                    0 <= j < k ==> {
                        let a = #[trigger] self.graphs@[j];
                        &&& same_but_sync(a, old(self).graphs@[j])
                        &&& a.sync_group_id == old(self).graphs@[j].sync_group_id
                        &&& a.sync_partner_ids@ == linked_partners(old(self).graphs@, group@, j)
                    },
            decreases n - k,
        {
            let id = self.graphs[k].id;
            proof {
                lemma_position_depends_on_ids(self.graphs@, old(self).graphs@, id, n as int);
            }
            let first = self.graph_index(id);
            let is_first = match first {
                Some(p) => p == k,
                None => false,
            };
            if is_first && contains_id(&group, id) {
                extend_partners(&mut self.graphs[k].sync_partner_ids, &group, id);
            }
            k += 1;
        }
        let ghost middle = self.graphs@;
        self.recompute_sync_groups();
        proof {
            assert forall|j: int| 0 <= j < n implies {
                let a = #[trigger] self.graphs@[j];
                &&& same_but_sync(a, old(self).graphs@[j])
                &&& a.sync_partner_ids@ == linked_partners(old(self).graphs@, group@, j)
                &&& a.sync_group_id == group_id_of(a.id, a.sync_partner_ids@)
            } by {
                assert(same_but_sync(self.graphs@[j], middle[j]));
            }
        }
    }

    /// Takes the first graph with identifier `gid` out of its sync group:
    /// its partners forget it, it forgets its partners, and the sync groups
    /// are set. Does nothing, and says so, when there is no such graph or it
    /// has no partners.
    pub fn unlink_graph(&mut self, gid: u64) -> (done: bool)
        ensures
            final(self).theme == old(self).theme,
            final(self).graph_ids == old(self).graph_ids,
            final(self).series_ids == old(self).series_ids,
            final(self).graphs@.len() == old(self).graphs@.len(),
            ({
                let before = old(self).graphs@;
                let u = graph_position(before, gid, before.len() as int);
                &&& done == (u < before.len() && before[u].sync_partner_ids@.len() > 0)
                &&& !done ==> final(self).graphs@ == before
                &&& done ==> forall|k: int|
                    0 <= k < before.len() ==> {
                        let a = #[trigger] final(self).graphs@[k];
                        &&& same_but_sync(a, before[k])
                        &&& a.sync_partner_ids@ == unlinked_partners(before, u, k)
                        &&& a.sync_group_id == group_id_of(a.id, a.sync_partner_ids@)
                    }
            }),
    {
        let u = match self.graph_index(gid) {
            Some(u) => u,
            None => {
                return false;
            },
        };
        if self.graphs[u].sync_partner_ids.len() == 0 {
            return false;
        }
        let partners = self.graphs[u].sync_partner_ids.clone();
        let n = self.graphs.len();
        let mut k: usize = 0;
        while k < n
            invariant
                k <= n,
                u < n,
                n == self.graphs@.len(),
                n == old(self).graphs@.len(),
                partners@ == old(self).graphs@[u as int].sync_partner_ids@,
                gid == old(self).graphs@[u as int].id,
                self.theme == old(self).theme,
                self.graph_ids == old(self).graph_ids,
                self.series_ids == old(self).series_ids,
                forall|j: int| k <= j < n ==> self.graphs@[j] == old(self).graphs@[j],
                forall|j: int| 0 <= j < n ==> (#[trigger] self.graphs@[j]).id == old(self).graphs@[j].id,
                forall|j: int|
                    0 <= j < k ==> {
                        let a = #[trigger] self.graphs@[j];
                        &&& same_but_sync(a, old(self).graphs@[j])
                        &&& a.sync_group_id == old(self).graphs@[j].sync_group_id
                        &&& a.sync_partner_ids@ == unlinked_partners(old(self).graphs@, u as int, j)
                    },
            decreases n - k,
        {
            if k == u {
                self.graphs[k].sync_partner_ids = Vec::new();
            } else {
                let id = self.graphs[k].id;
                proof {
                    lemma_position_depends_on_ids(self.graphs@, old(self).graphs@, id, n as int);
                }
                let first = self.graph_index(id);
                let is_first = match first {
                    Some(p) => p == k,
                    None => false,
                };
                if is_first && contains_id(&partners, id) {
                    let filtered = remove_id(&self.graphs[k].sync_partner_ids, gid);
                    self.graphs[k].sync_partner_ids = filtered;
                }
            }
            k += 1;
        }
        let ghost middle = self.graphs@;
        self.recompute_sync_groups();
        proof {
            assert forall|j: int| 0 <= j < n implies {
                let a = #[trigger] self.graphs@[j];
                &&& same_but_sync(a, old(self).graphs@[j])
                &&& a.sync_partner_ids@ == unlinked_partners(old(self).graphs@, u as int, j)
                &&& a.sync_group_id == group_id_of(a.id, a.sync_partner_ids@)
            } by {
                assert(same_but_sync(self.graphs@[j], middle[j]));
            }
        }
        true
    }

    /// Moves the graph at position `from` to slot `to`, as a drag of its
    /// panel asks. Nothing moves when there is no graph at `from`.
    pub fn reorder_graph(&mut self, from: usize, to: usize)
        ensures
            final(self).theme == old(self).theme,
            final(self).graph_ids == old(self).graph_ids,
            final(self).series_ids == old(self).series_ids,
            from >= old(self).graphs@.len() ==> final(self).graphs@ == old(self).graphs@,
            from < old(self).graphs@.len() ==> final(self).graphs@ == old(self).graphs@.remove(
                from as int,
            ).insert(
                landing_position(from as int, to as int, old(self).graphs@.len() as int),
                old(self).graphs@[from as int],
            ),
    {
        let len = self.graphs.len();
        if from < len {
            let graph = self.graphs.remove(from);
            let at = if to > from {
                to - 1
            } else {
                to
            };
            let at = if at > self.graphs.len() {
                self.graphs.len()
            } else {
                at
            };
            self.graphs.insert(at, graph);
        }
    }
}

/// The position of the first graph with an identifier depends only on the
/// identifiers of the graphs.
pub proof fn lemma_position_depends_on_ids(a: Seq<GraphState>, b: Seq<GraphState>, id: u64, upto: int)
    requires
        0 <= upto <= a.len(),
        a.len() == b.len(),
        forall|j: int| 0 <= j < a.len() ==> (#[trigger] a[j]).id == b[j].id,
    ensures
        graph_position(a, id, upto) == graph_position(b, id, upto),
    decreases upto,
{
    if upto > 0 {
        lemma_position_depends_on_ids(a, b, id, upto - 1);
        assert(a[upto - 1].id == b[upto - 1].id);
    }
}

impl Default for AppState {
    fn default() -> (s: AppState)
        ensures
            s.graphs@.len() == 1,
            is_fresh_graph(s.graphs@[0], 1),
            s.theme == Theme::Dark,
    {
        AppState::new()
    }
}

} // verus!
