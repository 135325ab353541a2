//! Decisions of the offscreen render-and-composite path of a scene in space.

use vstd::prelude::*;
use crate::render::gpu_plot::PixelRect;
use crate::render::gpu_types::{Line3DData, Scatter3DData};

verus! {

/// The key of the cached offscreen targets: their size and, as a number that
/// the backend assigns, their pixel format.
#[derive(Debug, Clone, Copy, PartialEq, Eq, Structural)]
pub struct TargetKey {
    pub width: u32,
    pub height: u32,
    pub format: u32,
}

/// The size of the offscreen targets for a viewport: at least one pixel each way.
pub open spec fn target_extent(viewport: u32) -> u32 {
    if viewport < 1 {
        1
    } else {
        viewport
    }
}

/// The key that the offscreen targets for a viewport and a format must have.
pub fn target_key(viewport_width: u32, viewport_height: u32, format: u32) -> (key: TargetKey)
    ensures
        key == (TargetKey {
            width: target_extent(viewport_width),
            height: target_extent(viewport_height),
            format,
        }),
{
    TargetKey {
        width: if viewport_width < 1 {
            1
        } else {
            viewport_width
        },
        height: if viewport_height < 1 {
            1
        } else {
            viewport_height
        },
        format,
    }
}

/// Whether the offscreen targets must be allocated anew: when there are
/// none, or when their size or format differs from what is wanted.
pub fn needs_recreate(cached: Option<TargetKey>, wanted: TargetKey) -> (r: bool)
    ensures
        r == (cached != Some(wanted)),
{
    match cached {
        Some(c) => c.width != wanted.width || c.height != wanted.height || c.format != wanted.format,
        None => true,
    }
}

/// What is drawn into the offscreen targets.
#[derive(Debug, Clone, Copy, PartialEq, Eq, Structural)]
pub enum SceneDraw {
    /// The segments of entry `index` of the line data, `instances` of them.
    Lines { index: usize, instances: u32 },
    /// The markers of entry `index` of the scatter data, `instances` of them.
    Markers { index: usize, instances: u32 },
}

/// An instance count as the backend takes it: limited to 32 bits.
pub open spec fn limited(n: int) -> int {
    if n > u32::MAX {
        u32::MAX as int
    } else {
        n
    }
}

/// The draws for the first `upto` entries of the line data: one for each
/// entry with at least two end points.
pub open spec fn line_draws(lines: Seq<Line3DData>, upto: int) -> Seq<SceneDraw>
    decreases upto,
{
    if upto <= 0 {
        Seq::empty()
    } else {
        let rest = line_draws(lines, upto - 1);
        if lines[upto - 1].segments@.len() >= 2 {
            rest.push(
                SceneDraw::Lines {
                    index: (upto - 1) as usize,
                    instances: limited(lines[upto - 1].segments@.len() as int / 2) as u32,
                },
            )
        } else {
            rest
        }
    }
}

/// The draws for the first `upto` entries of the scatter data: one for each
/// entry that is not empty.
pub open spec fn marker_draws(scatter: Seq<Scatter3DData>, upto: int) -> Seq<SceneDraw>
    decreases upto,
{
    if upto <= 0 {
        Seq::empty()
    } else {
        let rest = marker_draws(scatter, upto - 1);
        if scatter[upto - 1].positions@.len() > 0 {
            rest.push(
                SceneDraw::Markers {
                    index: (upto - 1) as usize,
                    instances: limited(scatter[upto - 1].positions@.len() as int) as u32,
                },
            )
        } else {
            rest
        }
    }
}

fn limit(n: usize) -> (c: u32)
    ensures
        c == limited(n as int),
{
    if n > u32::MAX as usize {
        u32::MAX
    } else {
        n as u32
    }
}

/// Plans the offscreen pass: first all lines, the grid among them, then all
/// markers. Entries with nothing to draw are left out.
pub fn plan_scene_draws(lines: &[Line3DData], scatter: &[Scatter3DData]) -> (draws: Vec<SceneDraw>)
    ensures
        draws@ == line_draws(lines@, lines@.len() as int) + marker_draws(
            scatter@,
            scatter@.len() as int,
        ),
{
    let mut draws: Vec<SceneDraw> = Vec::new();
    let mut i: usize = 0;
    while i < lines.len()
        invariant
            i <= lines.len(),
            draws@ == line_draws(lines@, i as int),
        decreases lines.len() - i,
    {
        let n = lines[i].segments.len();
        if n >= 2 {
            draws.push(SceneDraw::Lines { index: i, instances: limit(n / 2) });
        }
        i += 1;
    }
    let ghost first = draws@;
    let mut j: usize = 0;
    assert(draws@ =~= first + marker_draws(scatter@, 0));
    while j < scatter.len()
        invariant
            j <= scatter.len(),
            draws@ == first + marker_draws(scatter@, j as int),
        decreases scatter.len() - j,
    {
        let n = scatter[j].positions.len();
        let ghost before = marker_draws(scatter@, j as int);
        if n > 0 {
            let d = SceneDraw::Markers { index: j, instances: limit(n) };
            draws.push(d);
            assert(draws@ =~= first + before.push(d));
        }
        j += 1;
    }
    draws
}

/// Whether the composite step draws the offscreen colour target as one
/// quad: only when the offscreen pass has run and the viewport has an area.
pub fn composites(offscreen_ready: bool, viewport: PixelRect) -> (r: bool)
    ensures
        r == (offscreen_ready && viewport.has_area()),
{
    offscreen_ready && viewport.width_px > 0 && viewport.height_px > 0
}

} // verus!
