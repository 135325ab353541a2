//! The state of a camera that orbits a target point.
//!
//! Angles are fixed-point radians, lengths fixed-point units of the
//! normalized scene.

use vstd::prelude::*;
use crate::fixed::{clamp_finite, clamp_wide, div_floor, finite, is_finite, narrow, narrow_wide, NAN,
    SCALE};
use crate::render::plot_interaction::{zoom_factor};

verus! {

/// A quarter turn.
pub const HALF_PI: i64 = 1_570_796;

/// Lowest elevation: a hundredth of a radian above straight down.
pub const ELEVATION_MIN: i64 = -1_560_796;

/// Highest elevation: a hundredth of a radian below straight up.
pub const ELEVATION_MAX: i64 = 1_560_796;

/// Smallest distance from the target.
pub const DISTANCE_MIN: i64 = 100_000;

/// Largest distance from the target.
pub const DISTANCE_MAX: i64 = 50_000_000;

/// Distance of the default pose.
pub const DEFAULT_DISTANCE: i64 = 3_000_000;

/// Azimuth of the default pose: an eighth of a turn.
pub const DEFAULT_AZIMUTH: i64 = 785_398;

/// Elevation of the default pose: a twelfth of a turn.
pub const DEFAULT_ELEVATION: i64 = 523_599;

/// Vertical field of view of the default pose: an eighth of a turn.
pub const DEFAULT_FOV_Y: i64 = 785_398;

/// A point or a direction in space.
#[derive(Debug, Clone, Copy, PartialEq, Eq, Structural)]
pub struct Point3 {
    pub x: i64,
    pub y: i64,
    pub z: i64,
}

impl Point3 {
    /// Whether all three coordinates are finite.
    pub open spec fn is_finite(&self) -> bool {
        finite(self.x as int) && finite(self.y as int) && finite(self.z as int)
    }
}

/// Camera pose in spherical coordinates around `target`.
#[derive(Debug, Clone, Copy, PartialEq, Eq, Structural)]
pub struct OrbitalCamera {
    /// The point the camera looks at and orbits.
    pub target: Point3,
    /// Distance from the target.
    pub distance: i64,
    /// Angle around the vertical axis.
    pub azimuth: i64,
    /// Angle above the horizontal plane.
    pub elevation: i64,
    /// Vertical field of view.
    pub fov_y: i64,
}

/// What the pointer did over a scene during one frame.
#[derive(Debug, Clone, Copy, PartialEq, Eq, Structural)]
pub struct CameraInput {
    /// Whether the scene is dragged with the primary button.
    pub rotate_drag: bool,
    /// Whether the scene is dragged with the secondary button.
    pub pan_drag: bool,
    /// Drag distance of this frame, in pixels.
    pub drag_dx: i64,
    pub drag_dy: i64,
    /// Whether the pointer is over the scene.
    pub hovered: bool,
    /// Vertical scroll of this frame, in pixels.
    pub scroll: i64,
    pub double_clicked: bool,
    /// The camera's right and up directions in world space, as unit vectors.
    pub right: Point3,
    pub up: Point3,
}

/// The default pose.
pub open spec fn default_camera() -> OrbitalCamera {
    OrbitalCamera {
        target: Point3 { x: 0, y: 0, z: 0 },
        distance: DEFAULT_DISTANCE,
        azimuth: DEFAULT_AZIMUTH,
        elevation: DEFAULT_ELEVATION,
        fov_y: DEFAULT_FOV_Y,
    }
}

/// An elevation limited to the allowed interval.
pub open spec fn clamp_elevation(e: int) -> int {
    if e < ELEVATION_MIN {
        ELEVATION_MIN as int
    } else if e > ELEVATION_MAX {
        ELEVATION_MAX as int
    } else {
        e
    }
}

/// A distance limited to the allowed interval.
pub open spec fn clamp_distance(d: int) -> int {
    if d < DISTANCE_MIN {
        DISTANCE_MIN as int
    } else if d > DISTANCE_MAX {
        DISTANCE_MAX as int
    } else {
        d
    }
}

/// The azimuth after turning by `delta`: the sum of the two, and not a
/// number where the sum leaves the finite range.
pub open spec fn turned(azimuth: int, delta: int) -> i64 {
    narrow(azimuth + delta)
}

/// The distance after zooming by `factor`.
pub open spec fn zoomed_distance(distance: int, factor: int) -> int {
    clamp_distance((distance * factor) / (SCALE as int))
}

/// The distance after zooming `n` times by `factor`.
pub open spec fn zoomed_repeatedly(distance: int, factor: int, n: nat) -> int
    decreases n,
{
    if n == 0 {
        distance
    } else {
        zoomed_distance(zoomed_repeatedly(distance, factor, (n - 1) as nat), factor)
    }
}

/// How far a drag of `drag` pixels moves the target at `distance`: a five
/// hundredth of the distance per pixel, rounded down once.
pub open spec fn pan_amount(drag: int, distance: int) -> int {
    (drag * distance) / (500 * SCALE)
}

/// One coordinate of the target after a pan.
pub open spec fn panned_coord(t: int, right: int, up: int, along_right: int, along_up: int) -> int {
    clamp_finite(t + (right * along_right) / (SCALE as int) + (up * along_up) / (SCALE as int))
}

/// The angle by which a drag of `drag` pixels turns the camera: five
/// thousandths of a radian per pixel, against the drag.
pub open spec fn drag_angle(drag: int) -> int {
    (-drag) / 200
}

impl OrbitalCamera {
    /// Whether the pose is valid: a finite target and azimuth, the elevation
    /// strictly between straight down and straight up, the distance within
    /// its limits.
    pub open spec fn well_formed(&self) -> bool {
        &&& self.target.is_finite()
        &&& finite(self.azimuth as int)
        &&& ELEVATION_MIN <= self.elevation <= ELEVATION_MAX
        &&& DISTANCE_MIN <= self.distance <= DISTANCE_MAX
    }

    /// Whether the camera has a place: a finite target and a distance
    /// within its limits.
    pub open spec fn placed(&self) -> bool {
        &&& self.target.is_finite()
        &&& DISTANCE_MIN <= self.distance <= DISTANCE_MAX
    }

    /// The pose after turning by the given angles.
    pub open spec fn rotated(self, delta_azimuth: int, delta_elevation: int) -> OrbitalCamera {
        OrbitalCamera {
            azimuth: turned(self.azimuth as int, delta_azimuth),
            elevation: clamp_elevation(self.elevation + delta_elevation) as i64,
            ..self
        }
    }

    /// The pose after zooming by `factor`.
    pub open spec fn zoomed(self, factor: int) -> OrbitalCamera {
        OrbitalCamera { distance: zoomed_distance(self.distance as int, factor) as i64, ..self }
    }

    /// The pose after moving the target by a drag of `(dx, dy)` pixels in
    /// the plane spanned by `right` and `up`.
    pub open spec fn panned(self, right: Point3, up: Point3, dx: int, dy: int) -> OrbitalCamera {
        let along_right = pan_amount(-dx, self.distance as int);
        let along_up = pan_amount(dy, self.distance as int);
        OrbitalCamera {
            target: Point3 {
                x: panned_coord(self.target.x as int, right.x as int, up.x as int, along_right, along_up) as i64,
                y: panned_coord(self.target.y as int, right.y as int, up.y as int, along_right, along_up) as i64,
                z: panned_coord(self.target.z as int, right.z as int, up.z as int, along_right, along_up) as i64,
            },
            ..self
        }
    }

    /// The pose after one frame of pointer input: a primary drag turns, a
    /// secondary drag pans, a scroll over the scene zooms, a double click
    /// restores the default pose.
    pub open spec fn after_input(self, input: CameraInput) -> OrbitalCamera {
        let a = if input.rotate_drag {
            self.rotated(drag_angle(input.drag_dx as int), drag_angle(input.drag_dy as int))
        } else {
            self
        };
        let b = if input.pan_drag {
            a.panned(input.right, input.up, input.drag_dx as int, input.drag_dy as int)
        } else {
            a
        };
        let c = if input.hovered && input.scroll != 0 {
            b.zoomed(zoom_factor(input.scroll as int))
        } else {
            b
        };
        if input.double_clicked {
            default_camera()
        } else {
            c
        }
    }

    /// Checks [`OrbitalCamera::well_formed`].
    pub fn is_well_formed(&self) -> (r: bool)
        ensures
            r == self.well_formed(),
    {
        is_finite(self.target.x) && is_finite(self.target.y) && is_finite(self.target.z)
            && is_finite(self.azimuth) && ELEVATION_MIN <= self.elevation && self.elevation
            <= ELEVATION_MAX && DISTANCE_MIN <= self.distance && self.distance <= DISTANCE_MAX
    }

    /// Turns the camera by the given angles. The azimuth becomes the sum of
    /// the old one and the turn, not a number where that sum leaves the
    /// finite range; the elevation is kept strictly between straight down
    /// and straight up.
    pub fn rotate(&mut self, delta_azimuth: i64, delta_elevation: i64)
        ensures
            *final(self) == old(self).rotated(delta_azimuth as int, delta_elevation as int),
            finite(old(self).azimuth + delta_azimuth) ==> final(self).azimuth == old(self).azimuth
                + delta_azimuth,
            !finite(old(self).azimuth + delta_azimuth) ==> final(self).azimuth == NAN,
            final(self).elevation == clamp_elevation(old(self).elevation + delta_elevation),
            ELEVATION_MIN <= final(self).elevation <= ELEVATION_MAX,
            -HALF_PI < final(self).elevation < HALF_PI,
            old(self).well_formed() && finite(old(self).azimuth + delta_azimuth)
                ==> final(self).well_formed(),
    {
        self.azimuth = narrow_wide(self.azimuth as i128 + delta_azimuth as i128);
        let el: i128 = self.elevation as i128 + delta_elevation as i128;
        self.elevation = if el < ELEVATION_MIN as i128 {
            ELEVATION_MIN
        } else if el > ELEVATION_MAX as i128 {
            ELEVATION_MAX
        } else {
            el as i64
        };
    }

    /// Multiplies the distance by `factor`, keeping it within its limits.
    pub fn zoom(&mut self, factor: i64)
        ensures
            *final(self) == old(self).zoomed(factor as int),
            DISTANCE_MIN <= final(self).distance <= DISTANCE_MAX,
            old(self).well_formed() ==> final(self).well_formed(),
            old(self).well_formed() && 0 <= factor < SCALE ==> final(self).distance < old(
                self,
            ).distance || final(self).distance == DISTANCE_MIN,
    {
        proof {
            crate::fixed::lemma_product_bound(self.distance as int, factor as int);
            if self.well_formed() && 0 <= factor < SCALE {
                lemma_zoom_in_shrinks(self.distance as int, factor as int);
            }
        }
        let d = div_floor((self.distance as i128) * (factor as i128), SCALE as i128);
        self.distance = if d < DISTANCE_MIN as i128 {
            DISTANCE_MIN
        } else if d > DISTANCE_MAX as i128 {
            DISTANCE_MAX
        } else {
            d as i64
        };
    }

    /// Moves the target by a drag of `(dx, dy)` pixels in the plane spanned
    /// by the camera's `right` and `up` directions, scaled by the distance
    /// so that the scene follows the pointer at any zoom.
    pub fn pan(&mut self, right: Point3, up: Point3, dx: i64, dy: i64)
        requires
            old(self).placed(),
        ensures
            *final(self) == old(self).panned(right, up, dx as int, dy as int),
            final(self).placed(),
            old(self).well_formed() ==> final(self).well_formed(),
    {
        let distance: i128 = self.distance as i128;
        proof {
            lemma_pan_bounds(dx as int, distance as int);
            lemma_pan_bounds(dy as int, distance as int);
        }
        let along_right: i128 = div_floor(-(dx as i128) * distance, (500 * SCALE) as i128);
        let along_up: i128 = div_floor((dy as i128) * distance, (500 * SCALE) as i128);
        let x = pan_coord(self.target.x, right.x, up.x, along_right, along_up);
        let y = pan_coord(self.target.y, right.y, up.y, along_right, along_up);
        let z = pan_coord(self.target.z, right.z, up.z, along_right, along_up);
        self.target = Point3 { x, y, z };
    }

    /// Restores the default pose.
    pub fn reset(&mut self)
        ensures
            *final(self) == default_camera(),
            final(self).well_formed(),
    {
        *self = OrbitalCamera {
            target: Point3 { x: 0, y: 0, z: 0 },
            distance: DEFAULT_DISTANCE,
            azimuth: DEFAULT_AZIMUTH,
            elevation: DEFAULT_ELEVATION,
            fov_y: DEFAULT_FOV_Y,
        };
    }

    /// Applies one frame of pointer input.
    pub fn handle_input(&mut self, input: CameraInput)
        requires
            old(self).well_formed(),
        ensures
            *final(self) == old(self).after_input(input),
            final(self).placed(),
            ELEVATION_MIN <= final(self).elevation <= ELEVATION_MAX,
            finite(final(self).azimuth as int) ==> final(self).well_formed(),
            !input.rotate_drag || input.double_clicked ==> final(self).well_formed(),
    {
        if input.rotate_drag {
            let da = div_floor(-(input.drag_dx as i128), 200);
            let de = div_floor(-(input.drag_dy as i128), 200);
            self.rotate(da as i64, de as i64);
        }
        if input.pan_drag {
            self.pan(input.right, input.up, input.drag_dx, input.drag_dy);
        }
        if input.hovered && input.scroll != 0 {
            let factor = scroll_factor(input.scroll);
            self.zoom(factor);
        }
        if input.double_clicked {
            self.reset();
        }
    }
}

impl Default for OrbitalCamera {
    fn default() -> (c: OrbitalCamera)
        ensures
            c == default_camera(),
            c.well_formed(),
    {
        OrbitalCamera {
            target: Point3 { x: 0, y: 0, z: 0 },
            distance: DEFAULT_DISTANCE,
            azimuth: DEFAULT_AZIMUTH,
            elevation: DEFAULT_ELEVATION,
            fov_y: DEFAULT_FOV_Y,
        }
    }
}

fn scroll_factor(scroll: i64) -> (f: i64)
    ensures
        f == zoom_factor(scroll as int),
{
    let step: i128 = div_floor(scroll as i128, 1000);
    let f: i128 = SCALE as i128 - step;
    if f < (SCALE / 2) as i128 {
        SCALE / 2
    } else if f > (2 * SCALE) as i128 {
        2 * SCALE
    } else {
        f as i64
    }
}

fn pan_coord(t: i64, right: i64, up: i64, along_right: i128, along_up: i128) -> (r: i64)
    requires
        finite(t as int),
        -0x1000_0000_0000_0000 <= along_right <= 0x1000_0000_0000_0000,
        -0x1000_0000_0000_0000 <= along_up <= 0x1000_0000_0000_0000,
    ensures
        r == panned_coord(t as int, right as int, up as int, along_right as int, along_up as int),
        finite(r as int),
{
    proof {
        lemma_pan_product(right as int, along_right as int);
        lemma_pan_product(up as int, along_up as int);
    }
    let a = div_floor((right as i128) * along_right, SCALE as i128);
    let b = div_floor((up as i128) * along_up, SCALE as i128);
    clamp_wide(t as i128 + a + b)
}

proof fn lemma_pan_bounds(drag: int, distance: int)
    requires
        -0x8000_0000_0000_0000 <= drag <= 0x8000_0000_0000_0000,
        0 <= distance <= DISTANCE_MAX,
    ensures
        -0x8000_0000_0000_0000 * 50_000_000 <= drag * distance <= 0x8000_0000_0000_0000
            * 50_000_000,
        -0x8000_0000_0000_0000 * 50_000_000 <= -drag * distance <= 0x8000_0000_0000_0000
            * 50_000_000,
        -0x1000_0000_0000_0000 <= (drag * distance) / (500 * SCALE) <= 0x1000_0000_0000_0000,
        -0x1000_0000_0000_0000 <= (-drag * distance) / (500 * SCALE) <= 0x1000_0000_0000_0000,
{
    assert(-0x8000_0000_0000_0000 * 50_000_000 <= drag * distance <= 0x8000_0000_0000_0000
        * 50_000_000) by (nonlinear_arith)
        requires
            -0x8000_0000_0000_0000 <= drag <= 0x8000_0000_0000_0000,
            0 <= distance <= 50_000_000,
    ;
    assert(-drag * distance == -(drag * distance)) by (nonlinear_arith);
    let bound: int = 0x8000_0000_0000_0000int * 50_000_000int;
    let d: int = 500 * SCALE;
    vstd::arithmetic::div_mod::lemma_div_is_ordered(-bound, drag * distance, d);
    vstd::arithmetic::div_mod::lemma_div_is_ordered(drag * distance, bound, d);
    vstd::arithmetic::div_mod::lemma_div_is_ordered(-bound, -drag * distance, d);
    vstd::arithmetic::div_mod::lemma_div_is_ordered(-drag * distance, bound, d);
}

proof fn lemma_pan_product(dir: int, along: int)
    requires
        -0x8000_0000_0000_0000 <= dir <= 0x8000_0000_0000_0000,
        -0x1000_0000_0000_0000 <= along <= 0x1000_0000_0000_0000,
    ensures
        -0x0800_0000_0000_0000_0000_0000_0000_0000 <= dir * along
            <= 0x0800_0000_0000_0000_0000_0000_0000_0000,
        -0x1000_0000_0000_0000_0000_0000_0000_0000 <= (dir * along) / (SCALE as int)
            <= 0x1000_0000_0000_0000_0000_0000_0000_0000,
{
    assert(-0x0800_0000_0000_0000_0000_0000_0000_0000 <= dir * along
        <= 0x0800_0000_0000_0000_0000_0000_0000_0000) by (nonlinear_arith)
        requires
            -0x8000_0000_0000_0000 <= dir <= 0x8000_0000_0000_0000,
            -0x1000_0000_0000_0000 <= along <= 0x1000_0000_0000_0000,
    ;
    let bound: int = 0x0800_0000_0000_0000_0000_0000_0000_0000int;
    vstd::arithmetic::div_mod::lemma_div_is_ordered(-bound, dir * along, SCALE as int);
    vstd::arithmetic::div_mod::lemma_div_is_ordered(dir * along, bound, SCALE as int);
}

// ---------------------------------------------------------------------------
// Laws
// ---------------------------------------------------------------------------

/// Zooming in at a valid distance shrinks the distance, unless it is
/// already the smallest one.
pub proof fn lemma_zoom_in_shrinks(distance: int, factor: int)
    requires
        DISTANCE_MIN <= distance <= DISTANCE_MAX,
        factor < SCALE,
    ensures
        DISTANCE_MIN <= zoomed_distance(distance, factor) <= distance,
        zoomed_distance(distance, factor) < distance || zoomed_distance(distance, factor)
            == DISTANCE_MIN,
{
    let s = SCALE as int;
    assert(distance * factor <= distance * (s - 1)) by (nonlinear_arith)
        requires
            distance >= 0,
            factor <= s - 1,
    ;
    assert(distance * (s - 1) == distance * s - distance) by (nonlinear_arith);
    assert(distance * s - distance < distance * s);
    vstd::arithmetic::div_mod::lemma_div_is_ordered(distance * factor, distance * s - 1, s);
    assert((distance * s - 1) / s < distance) by {
        vstd::arithmetic::div_mod::lemma_div_multiples_vanish(distance, s);
        assert(s * distance == distance * s) by (nonlinear_arith);
        if (distance * s - 1) / s >= distance {
            vstd::arithmetic::div_mod::lemma_fundamental_div_mod(distance * s - 1, s);
            vstd::arithmetic::div_mod::lemma_mod_bound(distance * s - 1, s);
            let q = (distance * s - 1) / s;
            assert(s * q >= s * distance) by (nonlinear_arith)
                requires
                    q >= distance,
                    s > 0,
            ;
        }
    }
}

/// Turning by `(a, e)` and then by `(-a, -e)` restores the pose, provided
/// that the azimuth and the elevation of the pose are valid, that the first
/// turn does not hit an elevation limit and that it leaves the azimuth a
/// finite value.
pub proof fn lemma_rotate_back(c: OrbitalCamera, a: int, e: int)
    requires
        finite(c.azimuth as int),
        finite(c.azimuth + a),
        ELEVATION_MIN <= c.elevation <= ELEVATION_MAX,
        ELEVATION_MIN <= c.elevation + e <= ELEVATION_MAX,
    ensures
        c.rotated(a, e).azimuth == c.azimuth + a,
        c.rotated(a, e).elevation == c.elevation + e,
        c.rotated(a, e).rotated(-a, -e).azimuth == c.azimuth,
        c.rotated(a, e).rotated(-a, -e).elevation == c.elevation,
        c.rotated(a, e).rotated(-a, -e) == c,
{
}

/// A turn adds its angle to the azimuth wherever the sum is a finite value,
/// and its angle to the elevation up to the limits of the elevation.
pub proof fn lemma_rotate_adds(c: OrbitalCamera, a: int, e: int)
    ensures
        finite(c.azimuth + a) ==> c.rotated(a, e).azimuth == c.azimuth + a,
        c.rotated(a, e).elevation == clamp_elevation(c.elevation + e),
        c.rotated(a, e).target == c.target,
        c.rotated(a, e).distance == c.distance,
        c.rotated(a, e).fov_y == c.fov_y,
{
}

/// Whatever the turn, the elevation stays strictly between straight down
/// and straight up.
pub proof fn lemma_elevation_inside(c: OrbitalCamera, a: int, e: int)
    ensures
        -HALF_PI < c.rotated(a, e).elevation < HALF_PI,
{
}

/// Repeated zooming in never takes the distance below its lower limit, and
/// never increases it.
pub proof fn lemma_zoom_in_monotone(distance: int, factor: int, n: nat)
    requires
        DISTANCE_MIN <= distance <= DISTANCE_MAX,
        factor < SCALE,
    ensures
        DISTANCE_MIN <= zoomed_repeatedly(distance, factor, n) <= distance,
        n > 0 ==> zoomed_repeatedly(distance, factor, n) <= zoomed_repeatedly(
            distance,
            factor,
            (n - 1) as nat,
        ),
    decreases n,
{
    if n > 0 {
        lemma_zoom_in_monotone(distance, factor, (n - 1) as nat);
        lemma_zoom_in_shrinks(zoomed_repeatedly(distance, factor, (n - 1) as nat), factor);
    }
}

/// Repeated zooming in reaches the lower limit of the distance: after `n`
/// steps the distance is the lower limit or has shrunk by at least `n`
/// fixed-point steps, so that `distance - DISTANCE_MIN` steps always suffice.
pub proof fn lemma_zoom_in_converges(distance: int, factor: int, n: nat)
    requires
        DISTANCE_MIN <= distance <= DISTANCE_MAX,
        factor < SCALE,
    ensures
        zoomed_repeatedly(distance, factor, n) == DISTANCE_MIN || zoomed_repeatedly(
            distance,
            factor,
            n,
        ) <= distance - n,
        n >= distance - DISTANCE_MIN ==> zoomed_repeatedly(distance, factor, n) == DISTANCE_MIN,
    decreases n,
{
    lemma_zoom_in_monotone(distance, factor, n);
    if n > 0 {
        lemma_zoom_in_converges(distance, factor, (n - 1) as nat);
        lemma_zoom_in_monotone(distance, factor, (n - 1) as nat);
        lemma_zoom_in_shrinks(zoomed_repeatedly(distance, factor, (n - 1) as nat), factor);
    }
}

} // verus!
