use ocean_nav::boat::{
    boat_exhaust_system, paddle_translation, BoatExhaustParticle, ExhaustPuff, PlayerBoat,
};
use ocean_nav::camera::{camera_system, mouse_input_system, CameraTracker, LookingUp};
use ocean_nav::fixed::SCALE;
use ocean_nav::input::{ingame_keyboard_input_system, menu_keyboard_input_system, Controls};
use ocean_nav::navigation::AppState;
use ocean_nav::quat::{Quat, Transform};
use ocean_nav::vector::Vec3;
use ocean_nav::water::{snap_to_step, water_anchor};

fn fx(v: f64) -> i64 {
    (v * 1e9).round() as i64
}

fn vec3(x: f64, y: f64, z: f64) -> Vec3 {
    Vec3 { x: fx(x), y: fx(y), z: fx(z) }
}

fn quat_is_unit(q: Quat) -> bool {
    let n = (q.x as i128).pow(2) + (q.y as i128).pow(2) + (q.z as i128).pow(2) + (q.w as i128).pow(2);
    (SCALE as i128 - 10_000).pow(2) <= n && n <= (SCALE as i128 + 10_000).pow(2)
}

fn quat_close(a: Quat, b: Quat, tolerance: i64) -> bool {
    (a.x - b.x).abs() <= tolerance
        && (a.y - b.y).abs() <= tolerance
        && (a.z - b.z).abs() <= tolerance
        && (a.w - b.w).abs() <= tolerance
}

fn keys(forward: bool, backward: bool, left: bool, right: bool) -> Controls {
    Controls { forward, backward, left, right, look_pressed: false, look_released: false }
}

fn steered(throttle: f64, steer: f64, controls: Controls, dt: f64) -> (i64, i64) {
    let mut boat = PlayerBoat::new();
    boat.throttle = fx(throttle);
    boat.steer = fx(steer);
    let mut camera = CameraTracker::new();
    ingame_keyboard_input_system(fx(dt), &controls, &mut boat, &mut camera);
    (boat.throttle, boat.steer)
}

#[test]
fn the_throttle_opens_and_falls_back() {
    assert_eq!(steered(0.0, 0.0, keys(true, false, false, false), 0.1).0, fx(0.1));
    assert_eq!(steered(0.95, 0.0, keys(true, false, false, false), 0.1).0, fx(1.0));
    assert_eq!(steered(1.0, 0.0, keys(true, false, false, false), 0.1).0, fx(1.0));
    assert_eq!(steered(0.5, 0.0, keys(false, false, false, false), 0.1).0, fx(0.1));
    assert_eq!(steered(0.3, 0.0, keys(false, false, false, false), 0.1).0, 0);
    assert_eq!(steered(0.0, 0.0, keys(false, false, false, false), 0.1).0, 0);
}

#[test]
fn the_throttle_astern() {
    assert_eq!(steered(0.0, 0.0, keys(false, true, false, false), 0.1).0, fx(-0.1));
    // astern the throttle is opened only while short of half astern
    assert_eq!(steered(-0.45, 0.0, keys(false, true, false, false), 0.1).0, fx(-0.55));
    assert_eq!(steered(-0.5, 0.0, keys(false, true, false, false), 0.1).0, fx(-0.5));
    assert_eq!(steered(-0.55, 0.0, keys(false, true, false, false), 0.1).0, fx(-0.55));
    // let go, a throttle astern is taken off at once
    assert_eq!(steered(-0.5, 0.0, keys(false, false, false, false), 0.01).0, 0);
    // ahead let go and astern held: first eased, then opened astern
    assert_eq!(steered(0.5, 0.0, keys(false, true, false, false), 0.1).0, 0);
    // both held
    assert_eq!(steered(0.2, 0.0, keys(true, true, false, false), 0.1).0, fx(0.2));
}

#[test]
fn the_rudder_goes_over_and_comes_back() {
    assert_eq!(steered(0.0, 0.0, keys(false, false, true, false), 0.05).1, fx(-0.5));
    assert_eq!(steered(0.0, -0.8, keys(false, false, true, false), 0.05).1, fx(-1.0));
    assert_eq!(steered(0.0, 0.0, keys(false, false, false, true), 0.05).1, fx(0.5));
    assert_eq!(steered(0.0, 0.8, keys(false, false, false, true), 0.05).1, fx(1.0));
    assert_eq!(steered(0.0, 0.8, keys(false, false, false, false), 0.05).1, fx(0.6));
    assert_eq!(steered(0.0, -0.8, keys(false, false, false, false), 0.05).1, fx(-0.6));
    assert_eq!(steered(0.0, 0.1, keys(false, false, false, false), 0.05).1, 0);
    assert_eq!(steered(0.0, -0.1, keys(false, false, false, false), 0.05).1, 0);
    // rudder to the right, left held: it goes over by the one and comes
    // back by the other
    assert_eq!(steered(0.0, 0.6, keys(false, false, true, false), 0.05).1, 0);
}

#[test]
fn throttle_and_rudder_stay_in_range() {
    let mut boat = PlayerBoat::new();
    let mut camera = CameraTracker::new();
    let mut tick: i64 = 0;
    while tick < 2_000 {
        let controls = keys(tick % 3 == 0, tick % 5 < 2, tick % 7 < 3, tick % 11 < 6);
        let dt = (tick % 13) * 19_000_000;
        ingame_keyboard_input_system(dt, &controls, &mut boat, &mut camera);
        assert!(-SCALE <= boat.throttle && boat.throttle <= SCALE);
        assert!(-SCALE <= boat.steer && boat.steer <= SCALE);
        tick += 1;
    }
}

#[test]
fn the_key_that_raises_the_view() {
    let mut boat = PlayerBoat::new();
    let mut camera = CameraTracker::new();
    camera.looking_up = LookingUp::LookingDown(fx(0.4));
    let mut controls = keys(false, false, false, false);
    controls.look_pressed = true;
    ingame_keyboard_input_system(fx(0.016), &controls, &mut boat, &mut camera);
    assert_eq!(camera.looking_up, LookingUp::LookingUp(fx(0.4)));
    controls.look_pressed = false;
    ingame_keyboard_input_system(fx(0.016), &controls, &mut boat, &mut camera);
    assert_eq!(camera.looking_up, LookingUp::LookingUp(fx(0.4)));
    controls.look_released = true;
    ingame_keyboard_input_system(fx(0.016), &controls, &mut boat, &mut camera);
    assert_eq!(camera.looking_up, LookingUp::LookingDown(fx(0.4)));
    assert_eq!(boat, PlayerBoat::new());
}

#[test]
fn how_far_the_view_is_raised() {
    assert_eq!(LookingUp::Level.value(), 0);
    assert_eq!(LookingUp::LookingUp(fx(0.25)).value(), fx(0.25));
    assert_eq!(LookingUp::LookingDown(fx(0.75)).value(), fx(0.75));
}

#[test]
fn the_camera_hangs_behind_the_bobber() {
    let mut camera = CameraTracker::new();
    assert_eq!(camera.camera_translation(), vec3(0.0, 10.0, 50.0));
    camera.looking_up = LookingUp::LookingUp(SCALE);
    assert_eq!(camera.camera_translation(), vec3(0.0, 10.0, 0.01));
    camera.looking_up = LookingUp::LookingDown(fx(0.5));
    assert_eq!(camera.camera_translation(), vec3(0.0, 10.0, 25.005));
}

#[test]
fn the_bobber_follows_the_boat() {
    let mut camera = CameraTracker::new();
    let mut boat = PlayerBoat::new();
    boat.world_rotation = fx(1.0);
    let boat_transform = Transform { translation: vec3(7.0, 0.5, -3.0), rotation: Quat::identity() };
    let place = camera_system(fx(0.05), &mut camera, &boat, &boat_transform);
    assert_eq!(camera.bobber.translation, vec3(7.0, 15.0, -3.0));
    // half of the way toward the boat's heading
    assert!(quat_close(camera.bobber.rotation, Quat::from_rotation_y(fx(0.5)), 20));
    assert!(quat_is_unit(camera.bobber.rotation));
    assert_eq!(place, camera.camera_translation());
    assert_eq!(camera.looking_up, LookingUp::Level);
    assert_eq!(camera.input_rotation, Quat::identity());
}

#[test]
fn the_mouse_turns_the_view() {
    let mut camera = CameraTracker::new();
    mouse_input_system(&mut camera, fx(100.0), 0);
    assert!(quat_close(camera.input_rotation, Quat::from_rotation_y(fx(-0.1)), 5));
    let mut camera = CameraTracker::new();
    mouse_input_system(&mut camera, 0, fx(50.0));
    assert!(quat_close(camera.input_rotation, Quat::from_rotation_x(fx(0.05)), 5));
    let mut tick = 0;
    while tick < 500 {
        mouse_input_system(&mut camera, fx(3.0), fx(-2.0));
        assert!(quat_is_unit(camera.input_rotation));
        tick += 1;
    }
}

#[test]
fn the_sea_follows_the_boat_in_squares() {
    let step = fx(20.0);
    assert_eq!(snap_to_step(fx(45.0), step), fx(40.0));
    assert_eq!(snap_to_step(fx(40.0), step), fx(40.0));
    assert_eq!(snap_to_step(fx(19.999), step), 0);
    assert_eq!(snap_to_step(0, step), 0);
    assert_eq!(snap_to_step(fx(-19.999), step), 0);
    assert_eq!(snap_to_step(fx(-45.0), step), fx(-40.0));
    assert_eq!(snap_to_step(i64::MAX, 1), i64::MAX);
    assert_eq!(snap_to_step(i64::MIN, 1), i64::MIN);
    assert_eq!(
        water_anchor(vec3(3.0, -1.0, 4.0), vec3(105.0, 0.3, -61.0)),
        vec3(100.0, -1.0, -60.0)
    );
}

fn free_puff() -> ExhaustPuff {
    ExhaustPuff {
        particle: BoatExhaustParticle { free: true },
        transform: Transform { translation: Vec3::zero(), rotation: Quat::identity() },
        scale: 0,
        visible: false,
    }
}

#[test]
fn a_puff_leaves_the_boat() {
    assert_eq!(paddle_translation(), vec3(0.45, 0.0, 1.9));
    let mut boat = PlayerBoat::new();
    let boat_transform = Transform { translation: vec3(10.0, 2.0, 20.0), rotation: Quat::identity() };
    let mut in_the_air = free_puff();
    in_the_air.particle.free = false;
    in_the_air.visible = true;
    in_the_air.scale = fx(0.5);
    let mut puffs = vec![in_the_air, free_puff(), free_puff()];
    boat_exhaust_system(fx(0.2), fx(0.1), &mut boat, &boat_transform, &mut puffs);
    assert_eq!(boat.exhaust_last, fx(0.2));
    // the one in the air has faded by a thousandth
    assert_eq!(puffs[0].scale, fx(0.499));
    assert!(puffs[0].visible);
    // the first free one has left the boat, one below the paddle, and faded
    assert!(!puffs[1].particle.free);
    assert!(puffs[1].visible);
    assert_eq!(puffs[1].transform.translation, vec3(10.45, 1.0, 21.9));
    assert_eq!(puffs[1].scale, fx(0.009));
    // the other stays free
    assert_eq!(puffs[2], free_puff());
}

#[test]
fn no_puff_before_its_time() {
    let mut boat = PlayerBoat::new();
    boat.exhaust_last = fx(1.0);
    let boat_transform = Transform { translation: Vec3::zero(), rotation: Quat::identity() };
    let mut puffs = vec![free_puff(), free_puff()];
    boat_exhaust_system(fx(1.1), fx(0.1), &mut boat, &boat_transform, &mut puffs);
    assert_eq!(boat.exhaust_last, fx(1.0));
    assert_eq!(puffs, vec![free_puff(), free_puff()]);
    boat_exhaust_system(fx(1.100000001), fx(0.1), &mut boat, &boat_transform, &mut puffs);
    assert_eq!(boat.exhaust_last, fx(1.100000001));
    assert!(!puffs[0].particle.free);
    assert_eq!(puffs[1], free_puff());
}

#[test]
fn a_puff_fades_to_nothing() {
    let mut boat = PlayerBoat::new();
    boat.exhaust_last = fx(5.0);
    let boat_transform = Transform { translation: Vec3::zero(), rotation: Quat::identity() };
    let mut puff = free_puff();
    puff.particle.free = false;
    puff.visible = true;
    puff.scale = fx(0.0015);
    let mut puffs = vec![puff];
    boat_exhaust_system(fx(5.0), fx(0.1), &mut boat, &boat_transform, &mut puffs);
    assert_eq!(puffs[0].scale, fx(0.0005));
    assert!(puffs[0].visible && !puffs[0].particle.free);
    boat_exhaust_system(fx(5.0), fx(0.1), &mut boat, &boat_transform, &mut puffs);
    assert_eq!(puffs[0].scale, fx(-0.0005));
    assert!(!puffs[0].visible && puffs[0].particle.free);
    // with no puff free, none leaves, but the time is noted
    let mut busy = free_puff();
    busy.particle.free = false;
    busy.scale = fx(1.0);
    let mut puffs = vec![busy];
    boat_exhaust_system(fx(9.0), 0, &mut boat, &boat_transform, &mut puffs);
    assert_eq!(puffs, vec![busy]);
    assert_eq!(boat.exhaust_last, fx(9.0));
}

#[test]
fn the_menu_key_goes_to_and_fro() {
    assert_eq!(menu_keyboard_input_system(AppState::InGame, true), Some((AppState::Menu, true)));
    assert_eq!(menu_keyboard_input_system(AppState::Menu, true), Some((AppState::InGame, false)));
    assert_eq!(menu_keyboard_input_system(AppState::InGame, false), None);
    assert_eq!(menu_keyboard_input_system(AppState::Menu, false), None);
}
