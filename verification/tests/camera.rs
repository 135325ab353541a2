use oxideplot::plot3d::camera::{
    CameraInput, OrbitalCamera, Point3, DEFAULT_AZIMUTH, DEFAULT_DISTANCE, DEFAULT_ELEVATION,
    DEFAULT_FOV_Y, DISTANCE_MAX, DISTANCE_MIN, ELEVATION_MAX, ELEVATION_MIN, HALF_PI,
};
use oxideplot::fixed::{COORD_MAX, NAN};

const U: i64 = 1_000_000;

fn idle() -> CameraInput {
    CameraInput {
        rotate_drag: false,
        pan_drag: false,
        drag_dx: 0,
        drag_dy: 0,
        hovered: false,
        scroll: 0,
        double_clicked: false,
        right: Point3 { x: U, y: 0, z: 0 },
        up: Point3 { x: 0, y: U, z: 0 },
    }
}

#[test]
fn default_pose() {
    let c = OrbitalCamera::default();
    assert_eq!(c.target, Point3 { x: 0, y: 0, z: 0 });
    assert_eq!(c.distance, 3 * U);
    assert_eq!(c.azimuth, 785_398);
    assert_eq!(c.elevation, 523_599);
    assert_eq!(c.fov_y, 785_398);
    assert_eq!(
        (c.distance, c.azimuth, c.elevation, c.fov_y),
        (DEFAULT_DISTANCE, DEFAULT_AZIMUTH, DEFAULT_ELEVATION, DEFAULT_FOV_Y)
    );
    assert!(c.is_well_formed());
}

#[test]
fn rotate_and_back_restores_the_pose() {
    let mut c = OrbitalCamera::default();
    let before = c;
    c.rotate(1_234_567, -700_000);
    assert_eq!(c.azimuth, 785_398 + 1_234_567);
    assert_eq!(c.elevation, 523_599 - 700_000);
    c.rotate(-1_234_567, 700_000);
    assert_eq!(c, before);
}

#[test]
fn rotate_clamps_the_elevation() {
    let mut c = OrbitalCamera::default();
    c.rotate(0, 5 * U);
    assert_eq!(c.elevation, ELEVATION_MAX);
    assert_eq!(c.elevation, 1_560_796);
    assert!(c.elevation < HALF_PI);
    c.rotate(0, -1_200_000);
    // the way back does not restore what the limit cut off
    assert_eq!(c.elevation, 360_796);
    c.rotate(0, -5 * U);
    assert_eq!(c.elevation, ELEVATION_MIN);
    c.rotate(0, i64::MIN);
    assert_eq!(c.elevation, ELEVATION_MIN);
    assert_eq!(c.elevation, -1_560_796);
    assert!(c.elevation > -HALF_PI);
    c.rotate(0, i64::MAX);
    assert_eq!(c.elevation, ELEVATION_MAX);
}

#[test]
fn rotate_adds_the_turn_to_the_azimuth() {
    let mut c = OrbitalCamera::default();
    c.rotate(-1_570_796, 0);
    assert_eq!(c.azimuth, -785_398);
    assert!(c.is_well_formed());
    c.rotate(-7_000_000, 0);
    assert_eq!(c.azimuth, -7_785_398);
    c.rotate(7_000_000 + 1_570_796, 0);
    assert_eq!(c, OrbitalCamera::default());

    c.rotate(100_000_000_000_000, 0);
    assert_eq!(c.azimuth, 100_000_000_785_398);
    c.rotate(-100_000_000_000_000, 0);
    assert_eq!(c, OrbitalCamera::default());

    c.rotate(COORD_MAX - 785_398, 0);
    assert_eq!(c.azimuth, COORD_MAX);
    assert!(c.is_well_formed());
    c.rotate(-2 * COORD_MAX, 0);
    assert_eq!(c.azimuth, -COORD_MAX);
    assert!(c.is_well_formed());
}

#[test]
fn rotate_beyond_the_finite_range_leaves_no_number() {
    let mut c = OrbitalCamera::default();
    c.rotate(i64::MAX, 0);
    assert_eq!(c.azimuth, NAN);
    assert!(!c.is_well_formed());
    assert_eq!(c.elevation, DEFAULT_ELEVATION);

    let mut d = OrbitalCamera::default();
    d.rotate(COORD_MAX, 0);
    assert_eq!(d.azimuth, NAN);
    let mut e = OrbitalCamera::default();
    e.rotate(-COORD_MAX - 785_399, 0);
    assert_eq!(e.azimuth, NAN);
    let mut f = OrbitalCamera::default();
    f.rotate(-COORD_MAX - 785_398, 0);
    assert_eq!(f.azimuth, -COORD_MAX);
}

#[test]
fn zoom_multiplies_the_distance() {
    let mut c = OrbitalCamera::default();
    c.zoom(1_500_000);
    assert_eq!(c.distance, 4_500_000);
    c.zoom(500_000);
    assert_eq!(c.distance, 2_250_000);
    c.zoom(U);
    assert_eq!(c.distance, 2_250_000);
}

#[test]
fn zoom_in_converges_to_the_lower_limit() {
    let mut c = OrbitalCamera::default();
    let mut steps = 0;
    let mut last = c.distance;
    while c.distance > DISTANCE_MIN {
        c.zoom(500_000);
        assert!(c.distance < last);
        assert!(c.distance >= DISTANCE_MIN);
        last = c.distance;
        steps += 1;
    }
    assert_eq!(steps, 5);
    c.zoom(500_000);
    assert_eq!(c.distance, DISTANCE_MIN);
    assert_eq!(c.distance, 100_000);
    c.zoom(999_999);
    assert_eq!(c.distance, 100_000);
}

#[test]
fn zoom_limits() {
    let mut c = OrbitalCamera::default();
    c.zoom(i64::MAX);
    assert_eq!(c.distance, DISTANCE_MAX);
    assert_eq!(c.distance, 50 * U);
    c.zoom(-3 * U);
    assert_eq!(c.distance, DISTANCE_MIN);
    c.zoom(0);
    assert_eq!(c.distance, DISTANCE_MIN);
}

#[test]
fn pan_moves_the_target_in_the_view_plane() {
    let mut c = OrbitalCamera::default();
    // distance 3: one pixel is 0.006 units
    c.pan(Point3 { x: U, y: 0, z: 0 }, Point3 { x: 0, y: U, z: 0 }, 100 * U, 50 * U);
    assert_eq!(c.target, Point3 { x: -600_000, y: 300_000, z: 0 });
    c.pan(Point3 { x: 0, y: 0, z: U }, Point3 { x: 0, y: U, z: 0 }, -10 * U, 0);
    assert_eq!(c.target, Point3 { x: -600_000, y: 300_000, z: 60_000 });
    assert!(c.is_well_formed());
}

#[test]
fn reset_restores_the_default_pose() {
    let mut c = OrbitalCamera::default();
    c.rotate(5, 5);
    c.zoom(2 * U);
    c.pan(Point3 { x: U, y: 0, z: 0 }, Point3 { x: 0, y: U, z: 0 }, 7 * U, 7 * U);
    c.reset();
    assert_eq!(c, OrbitalCamera::default());
}

#[test]
fn handle_input_turns_pans_zooms_and_resets() {
    let mut c = OrbitalCamera::default();
    let mut turn = idle();
    turn.rotate_drag = true;
    turn.drag_dx = 200 * U;
    turn.drag_dy = -100 * U;
    c.handle_input(turn);
    assert_eq!(c.azimuth, 785_398 - U);
    assert_eq!(c.elevation, 523_599 + 500_000);

    let mut scroll = idle();
    scroll.hovered = true;
    scroll.scroll = 250 * U;
    c.handle_input(scroll);
    assert_eq!(c.distance, 2_250_000);

    let mut away = idle();
    away.scroll = 250 * U;
    c.handle_input(away);
    assert_eq!(c.distance, 2_250_000);

    let mut drag = idle();
    drag.pan_drag = true;
    drag.drag_dx = 10 * U;
    c.handle_input(drag);
    assert_eq!(c.target, Point3 { x: -45_000, y: 0, z: 0 });

    let mut click = idle();
    click.double_clicked = true;
    c.handle_input(click);
    assert_eq!(c, OrbitalCamera::default());
}

#[test]
fn pan_scales_with_the_exact_distance() {
    let mut c = OrbitalCamera::default();
    c.distance = 100_499;
    c.pan(Point3 { x: U, y: 0, z: 0 }, Point3 { x: 0, y: U, z: 0 }, 1000 * U, -1000 * U);
    assert_eq!(c.target, Point3 { x: -200_998, y: -200_998, z: 0 });
}
