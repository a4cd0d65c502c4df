use ocean_nav::boat::MoveEvent;
use ocean_nav::fixed::SCALE;
use ocean_nav::navigation::{
    event_fits, island_enter_leave, receive_events, AppState, DayTime, InGameState,
    InvalidTransition, Island, NavigationEvent, WorldIsland,
};
use ocean_nav::quat::Quat;
use ocean_nav::sky::{
    advance, approach_fraction, approach_value, island_direction, jump_skydome, released,
    skydome_system, snapped, SkyDome, SkyDomeIsland, SkyTuning,
};
use ocean_nav::vector::Vec3;
use ocean_nav::voyage::Voyage;
use ocean_nav::water::Weather;

fn fx(v: f64) -> i64 {
    (v * 1e9).round() as i64
}

fn vec3(x: f64, y: f64, z: f64) -> Vec3 {
    Vec3 { x: fx(x), y: fx(y), z: fx(z) }
}

fn quat_is_unit(q: Quat) -> bool {
    let n = (q.x as i128).pow(2) + (q.y as i128).pow(2) + (q.z as i128).pow(2) + (q.w as i128).pow(2);
    (SCALE as i128 - 10_000).pow(2) <= n && n <= (SCALE as i128 + 10_000).pow(2)
}

fn quat_close(a: Quat, b: Quat, tolerance: i64) -> bool {
    (a.x - b.x).abs() <= tolerance
        && (a.y - b.y).abs() <= tolerance
        && (a.z - b.z).abs() <= tolerance
        && (a.w - b.w).abs() <= tolerance
}

const HALF_PI: f64 = std::f64::consts::FRAC_PI_2;

fn islands() -> Vec<SkyDomeIsland> {
    vec![
        SkyDomeIsland::new(
            Island::Home,
            Quat::from_rotation_x(fx(HALF_PI * 0.1)).times(Quat::from_rotation_y(fx(HALF_PI * 0.2))),
        ),
        SkyDomeIsland::new(
            Island::IslandA,
            Quat::from_rotation_x(fx(HALF_PI * -0.15)).times(Quat::from_rotation_z(fx(HALF_PI * 0.12))),
        ),
    ]
}

fn island_at(translation: Vec3) -> WorldIsland {
    WorldIsland { island: Island::Home, sky_rotation: islands()[0].rotation, translation }
}

fn day() -> InGameState {
    InGameState { time: DayTime::Day }
}

fn night() -> InGameState {
    InGameState { time: DayTime::Night }
}

fn moved_to(translation: Vec3) -> MoveEvent {
    MoveEvent { jump: vec3(0.0, 0.0, 0.5), translation }
}

#[test]
fn the_standard_sky_tuning() {
    let tuning = SkyTuning::standard();
    assert_eq!(tuning.sky_scale, fx(0.001));
    assert_eq!(tuning.enter_alignment, fx(0.99));
    assert_eq!(tuning.landing_distance, fx(5000.0));
    assert_eq!(tuning.leave_threshold, fx(700.0));
    assert_eq!(tuning.lock_distance, fx(0.2));
    assert_eq!(tuning.value_cap, fx(0.75));
    assert_eq!(SkyTuning::default(), tuning);
}

#[test]
fn a_new_dome_has_not_turned() {
    assert_eq!(SkyDome::new(), SkyDome { rotation: Quat::identity(), locked_island: false });
}

#[test]
fn approach_fraction_at_the_thresholds() {
    let tuning = SkyTuning::standard();
    assert_eq!(approach_fraction(fx(700.0), tuning), 0);
    assert_eq!(approach_fraction(0, tuning), SCALE);
    assert_eq!(approach_fraction(fx(350.0), tuning), 500_000_000);
    assert_eq!(approach_fraction(fx(560.0), tuning), 200_000_000);
    assert_eq!(approach_fraction(fx(70.0), tuning), 900_000_000);
    assert_eq!(approach_fraction(fx(1400.0), tuning), -SCALE);
}

#[test]
fn the_island_is_left_beyond_the_threshold() {
    let tuning = SkyTuning::standard();
    let island = island_at(Vec3::zero());
    let none: Vec<SkyDomeIsland> = Vec::new();
    for (distance, expected) in [
        (700.0, NavigationEvent::Approach(0)),
        (0.0, NavigationEvent::Approach(SCALE)),
        (701.0, NavigationEvent::Leave),
        (700.000000001, NavigationEvent::Leave),
        (350.0, NavigationEvent::Approach(500_000_000)),
    ] {
        let mut dome = SkyDome::new();
        let mut weather = Weather { wave_intensity: SCALE };
        let event = skydome_system(
            &moved_to(vec3(0.0, 0.0, distance)),
            &day(),
            &mut dome,
            &none,
            Some(island),
            &mut weather,
            &tuning,
        );
        assert_eq!(event, vec![expected], "at a distance of {}", distance);
    }
}

#[test]
fn leaving_changes_neither_dome_nor_weather() {
    let mut dome = SkyDome { rotation: Quat::from_rotation_x(fx(0.3)), locked_island: true };
    let before = dome;
    let mut weather = Weather { wave_intensity: fx(0.4) };
    let event = skydome_system(
        &moved_to(vec3(800.0, 0.0, 0.0)),
        &day(),
        &mut dome,
        &islands(),
        Some(island_at(Vec3::zero())),
        &mut weather,
        &SkyTuning::standard(),
    );
    assert_eq!(event, vec![NavigationEvent::Leave]);
    assert_eq!(dome, before);
    assert_eq!(weather.wave_intensity, fx(0.4));
}

#[test]
fn by_day_without_an_island_nothing_happens() {
    let mut dome = SkyDome { rotation: Quat::from_rotation_x(fx(0.3)), locked_island: false };
    let before = dome;
    let mut weather = Weather { wave_intensity: fx(0.4) };
    let event = skydome_system(
        &moved_to(vec3(1.0, 0.0, 0.0)),
        &day(),
        &mut dome,
        &islands(),
        None,
        &mut weather,
        &SkyTuning::standard(),
    );
    assert_eq!(event, Vec::new());
    assert_eq!(dome, before);
    assert_eq!(weather.wave_intensity, fx(0.4));
}

#[test]
fn the_sky_brightens_on_approach() {
    let tuning = SkyTuning::standard();
    assert_eq!(approach_value(0, tuning), 0);
    assert_eq!(approach_value(fx(0.1), tuning), 0);
    assert_eq!(approach_value(fx(0.05), tuning), 0);
    assert_eq!(approach_value(fx(0.15), tuning), fx(0.5));
    assert_eq!(approach_value(fx(0.175), tuning), fx(0.75));
    assert_eq!(approach_value(fx(0.9), tuning), fx(0.75));
    assert_eq!(approach_value(-SCALE, tuning), 0);
}

#[test]
fn approach_calms_the_sea() {
    let tuning = SkyTuning::standard();
    let mut dome = SkyDome::new();
    let mut weather = Weather { wave_intensity: SCALE };
    // at 595 the fraction is 0.15 and the value 0.5
    skydome_system(
        &moved_to(vec3(595.0, 0.0, 0.0)),
        &day(),
        &mut dome,
        &islands(),
        Some(island_at(Vec3::zero())),
        &mut weather,
        &tuning,
    );
    assert_eq!(weather.wave_intensity, fx(0.5));
    skydome_system(
        &moved_to(vec3(100.0, 0.0, 0.0)),
        &day(),
        &mut dome,
        &islands(),
        Some(island_at(Vec3::zero())),
        &mut weather,
        &tuning,
    );
    assert_eq!(weather.wave_intensity, fx(0.25));
}

#[test]
fn the_dome_turns_against_the_jump() {
    // sailing along z turns the dome about x, backwards
    let q = jump_skydome(vec3(0.0, 0.0, 1000.0), fx(0.001));
    assert!(quat_close(q, Quat::from_rotation_x(fx(-1.0)), 2), "{:?}", q);
    // sailing along x turns it about z, forwards
    let q = jump_skydome(vec3(2.0, 0.0, 0.0), fx(0.001));
    assert!(quat_close(q, Quat::from_rotation_z(fx(0.002)), 2), "{:?}", q);
    assert_eq!(jump_skydome(Vec3::zero(), fx(0.001)), Quat::identity());
    // the length of the jump sets the angle
    let q = jump_skydome(vec3(3.0, 0.0, 4.0), fx(0.01));
    assert!((q.w - Quat::from_rotation_x(fx(-0.05)).w).abs() <= 2);
    assert!(quat_is_unit(q));
    assert!(quat_is_unit(jump_skydome(Vec3 { x: i64::MAX, y: i64::MIN, z: 3 }, i64::MAX)));
}

#[test]
fn dead_reckoning_keeps_the_dome_unit() {
    let mut rotation = Quat::identity();
    let mut tick: i64 = 0;
    while tick < 5_000 {
        let jump = Vec3 { x: (tick % 7 - 3) * 40_000_000, y: 0, z: 160_000_000 + tick * 1_000 };
        rotation = advance(rotation, jump, fx(0.001));
        assert!(quat_is_unit(rotation), "after {} ticks: {:?}", tick, rotation);
        tick += 1;
    }
    assert!(quat_is_unit(advance(Quat { x: 0, y: 0, z: 0, w: 0 }, vec3(1.0, 0.0, 0.0), fx(0.001))));
    assert!(quat_is_unit(advance(
        Quat { x: i64::MAX, y: i64::MIN, z: 5, w: -1 },
        Vec3 { x: i64::MIN, y: i64::MAX, z: i64::MAX },
        i64::MAX
    )));
}

#[test]
fn dead_reckoning_adds_up() {
    // a thousand short jumps turn the dome as far as one long one
    let mut rotation = Quat::identity();
    let mut tick = 0;
    while tick < 1_000 {
        rotation = advance(rotation, vec3(0.0, 0.0, 0.5), fx(0.001));
        tick += 1;
    }
    let once = advance(Quat::identity(), vec3(0.0, 0.0, 500.0), fx(0.001));
    assert!(quat_close(rotation, once, 20_000), "{:?} against {:?}", rotation, once);
    assert!(quat_close(once, Quat::from_rotation_x(fx(-0.5)), 5));
}

#[test]
fn dead_reckoning_applies_the_turn_in_world_space() {
    let sky = Quat::from_rotation_y(fx(1.0));
    let jump = vec3(0.0, 0.0, 100.0);
    let expected = Quat::from_rotation_x(fx(-0.1)).times(sky).normalize();
    assert!(quat_close(advance(sky, jump, fx(0.001)), expected, 5));
    let other = sky.times(Quat::from_rotation_x(fx(-0.1))).normalize();
    assert!(!quat_close(advance(sky, jump, fx(0.001)), other, 1_000_000));
}

#[test]
fn an_island_overhead_is_entered() {
    let tuning = SkyTuning::standard();
    // a dome turned so that the first island stands straight up
    let island = islands()[0];
    let mut dome = SkyDome { rotation: island.rotation.conjugate(), locked_island: false };
    let mut weather = Weather { wave_intensity: SCALE };
    let still = MoveEvent { jump: Vec3 { x: 0, y: 0, z: 1_000 }, translation: vec3(10.0, 3.0, -20.0) };
    let event = skydome_system(&still, &night(), &mut dome, &islands(), None, &mut weather, &tuning);
    assert_eq!(event.len(), 1);
    match event.first() {
        Some(&NavigationEvent::Enter(id, rotation, point)) => {
            assert_eq!(id, Island::Home);
            assert_eq!(rotation, island.rotation);
            assert_eq!(point.y, 0);
            let direction = island_direction(dome.rotation, island.rotation);
            assert!(direction.y > fx(0.99));
            assert_eq!(point.x, still.translation.x + direction.scale(fx(5000.0)).x);
            assert_eq!(point.z, still.translation.z + direction.scale(fx(5000.0)).z);
        }
        other => panic!("expected an island, got {:?}", other),
    }
    assert_eq!(weather.wave_intensity, SCALE);
    assert!(!dome.locked_island);
}

#[test]
fn no_island_overhead_no_event() {
    let tuning = SkyTuning::standard();
    let mut dome = SkyDome::new();
    let mut weather = Weather { wave_intensity: SCALE };
    // at the start the nearest island stands nine degrees off
    let event = skydome_system(
        &MoveEvent { jump: vec3(0.0, 0.0, 0.1), translation: vec3(0.0, 0.0, 0.1) },
        &night(),
        &mut dome,
        &islands(),
        None,
        &mut weather,
        &tuning,
    );
    assert_eq!(event, Vec::new());
    assert_eq!(dome.rotation, advance(Quat::identity(), vec3(0.0, 0.0, 0.1), tuning.sky_scale));
}

#[test]
fn every_island_overhead_is_entered() {
    let tuning = SkyTuning::standard();
    let sky = vec![
        SkyDomeIsland::new(Island::IslandB, Quat::from_rotation_x(fx(0.01))),
        SkyDomeIsland::new(Island::Home, Quat::from_rotation_x(fx(1.0))),
        SkyDomeIsland::new(Island::IslandA, Quat::identity()),
    ];
    let mut dome = SkyDome::new();
    let mut weather = Weather { wave_intensity: SCALE };
    let ev = MoveEvent { jump: vec3(0.0, 0.0, 0.001), translation: vec3(4.0, 1.0, -2.0) };
    let events = skydome_system(&ev, &night(), &mut dome, &sky, None, &mut weather, &tuning);
    // the first and the third stand overhead, the second does not: one
    // event each, in the order of the islands
    assert_eq!(events.len(), 2);
    for (event, island) in events.iter().zip([sky[0], sky[2]]) {
        let direction = island_direction(dome.rotation, island.rotation);
        assert!(direction.y > fx(0.99));
        let ahead = ev.translation.plus(direction.scale(fx(5000.0)));
        assert_eq!(
            *event,
            NavigationEvent::Enter(island.id, island.rotation, Vec3 { x: ahead.x, y: 0, z: ahead.z })
        );
    }
    assert!(island_direction(dome.rotation, sky[1].rotation).y <= fx(0.99));
    assert_eq!(weather.wave_intensity, SCALE);
}

#[test]
fn a_second_island_overhead_meets_the_day() {
    let tuning = SkyTuning::standard();
    let sky = vec![
        SkyDomeIsland::new(Island::IslandB, Quat::from_rotation_x(fx(0.01))),
        SkyDomeIsland::new(Island::IslandA, Quat::identity()),
    ];
    let mut voyage = Voyage::new();
    let ev = MoveEvent { jump: vec3(0.0, 0.0, 0.001), translation: Vec3::zero() };
    let outcome = voyage.sail(&ev, &sky, &tuning);
    // the first island has brought the day; the second finds it
    match outcome {
        Err(InvalidTransition { time, event: NavigationEvent::Enter(island, _, _) }) => {
            assert_eq!(time, DayTime::Day);
            assert_eq!(island, Island::IslandA);
        }
        other => panic!("expected a fault, got {:?}", other),
    }
    assert_eq!(voyage.state.time, DayTime::Day);
    assert_eq!(voyage.world_island.map(|w| w.island), Some(Island::IslandB));
    assert_eq!(voyage.skydome.rotation, advance(Quat::identity(), ev.jump, tuning.sky_scale));
}

#[test]
fn events_are_received_in_their_order() {
    let enter = NavigationEvent::Enter(Island::Home, Quat::identity(), vec3(1.0, 0.0, 2.0));
    let home = WorldIsland { island: Island::Home, sky_rotation: Quat::identity(), translation: vec3(1.0, 0.0, 2.0) };
    // enter, approach, leave: all fit
    let mut state = night();
    let mut world = None;
    let events = vec![enter, NavigationEvent::Approach(5), NavigationEvent::Leave];
    assert_eq!(receive_events(&mut state, &events, &mut world), None);
    assert_eq!((state.time, world), (DayTime::Night, None));
    // nothing to receive
    assert_eq!(receive_events(&mut state, &Vec::new(), &mut world), None);
    assert_eq!((state.time, world), (DayTime::Night, None));
    // the second enter meets the day; the leave behind it is not received
    let events = vec![enter, enter, NavigationEvent::Leave];
    assert_eq!(
        receive_events(&mut state, &events, &mut world),
        Some(InvalidTransition { time: DayTime::Day, event: enter })
    );
    assert_eq!((state.time, world), (DayTime::Day, Some(home)));
    // an approach at night, a leave at night
    let mut state = night();
    let mut world = None;
    assert_eq!(
        receive_events(&mut state, &vec![NavigationEvent::Approach(7)], &mut world),
        Some(InvalidTransition { time: DayTime::Night, event: NavigationEvent::Approach(7) })
    );
    assert_eq!(
        receive_events(&mut state, &vec![NavigationEvent::Leave], &mut world),
        Some(InvalidTransition { time: DayTime::Night, event: NavigationEvent::Leave })
    );
    assert_eq!((state.time, world), (DayTime::Night, None));
}

#[test]
fn alignment_at_the_threshold_does_not_enter() {
    let mut tuning = SkyTuning::standard();
    let island = SkyDomeIsland::new(Island::Home, Quat::identity());
    let dome_rotation = advance(Quat::identity(), vec3(0.0, 0.0, 100.0), tuning.sky_scale);
    let height = island_direction(dome_rotation, island.rotation).y;
    tuning.enter_alignment = height;
    let mut dome = SkyDome::new();
    let mut weather = Weather { wave_intensity: SCALE };
    let ev = MoveEvent { jump: vec3(0.0, 0.0, 100.0), translation: Vec3::zero() };
    assert_eq!(
        skydome_system(&ev, &night(), &mut dome, &vec![island], None, &mut weather, &tuning),
        Vec::new()
    );
    tuning.enter_alignment = height - 1;
    let mut dome = SkyDome::new();
    assert_eq!(
        skydome_system(&ev, &night(), &mut dome, &vec![island], None, &mut weather, &tuning).len(),
        1
    );
}

#[test]
fn the_island_takes_hold_of_the_dome() {
    let tuning = SkyTuning::standard();
    let island = island_at(Vec3::zero());
    let start = Quat::from_rotation_x(fx(0.2)).times(Quat::from_rotation_z(fx(-0.1)));
    let mut dome = SkyDome { rotation: start, locked_island: false };
    let mut weather = Weather { wave_intensity: SCALE };
    // at 350 the fraction is one half, above the lock distance
    let ev = moved_to(vec3(350.0, 0.0, 0.0));
    skydome_system(&ev, &day(), &mut dome, &islands(), Some(island), &mut weather, &tuning);
    assert!(dome.locked_island);
    assert_eq!(dome.rotation, snapped(start, island.sky_rotation));
    // held, the island stands straight up
    assert!(quat_close(dome.rotation, island.sky_rotation.conjugate(), 50), "{:?}", dome.rotation);
    let direction = island_direction(dome.rotation, island.sky_rotation);
    assert!(direction.y > SCALE - 100);
    assert!(quat_is_unit(dome.rotation));
}

#[test]
fn a_held_dome_rests_until_released() {
    let tuning = SkyTuning::standard();
    let island = island_at(Vec3::zero());
    let mut dome = SkyDome::new();
    let mut weather = Weather { wave_intensity: SCALE };
    let all = islands();
    // sail in: held above a fraction of 0.2
    skydome_system(&moved_to(vec3(500.0, 0.0, 0.0)), &day(), &mut dome, &all, Some(island), &mut weather, &tuning);
    assert!(dome.locked_island);
    let held = dome.rotation;
    // while the fraction stays at or above 0.2 the dome does not turn
    for x in [400.0, 100.0, 0.0, 250.0, 559.0, 560.0] {
        let ev = MoveEvent { jump: vec3(30.0, 0.0, -40.0), translation: vec3(x, 0.0, 0.0) };
        let event = skydome_system(&ev, &day(), &mut dome, &all, Some(island), &mut weather, &tuning);
        assert!(matches!(event[..], [NavigationEvent::Approach(f)] if f >= fx(0.2)));
        assert!(dome.locked_island, "still held at {}", x);
        assert_eq!(dome.rotation, held, "at rest at {}", x);
    }
    // under 0.2 it is released, with a push away from the island
    let ev = MoveEvent { jump: vec3(30.0, 0.0, -40.0), translation: vec3(561.0, 0.0, 0.0) };
    skydome_system(&ev, &day(), &mut dome, &all, Some(island), &mut weather, &tuning);
    assert!(!dome.locked_island);
    assert_eq!(dome.rotation, released(held, ev.translation, island.translation, tuning));
    assert!(dome.rotation != held);
    let pushed = dome.rotation;
    // free and under 0.2, it goes on by dead reckoning
    let ev = MoveEvent { jump: vec3(3.0, 0.0, -4.0), translation: vec3(600.0, 0.0, 0.0) };
    skydome_system(&ev, &day(), &mut dome, &all, Some(island), &mut weather, &tuning);
    assert!(!dome.locked_island);
    assert_eq!(dome.rotation, advance(pushed, ev.jump, tuning.sky_scale));
}

#[test]
fn at_the_lock_distance_a_free_dome_rests() {
    let tuning = SkyTuning::standard();
    let island = island_at(Vec3::zero());
    let start = Quat::from_rotation_z(fx(0.3));
    let mut dome = SkyDome { rotation: start, locked_island: false };
    let mut weather = Weather { wave_intensity: SCALE };
    let ev = MoveEvent { jump: vec3(3.0, 0.0, -4.0), translation: vec3(560.0, 0.0, 0.0) };
    let event = skydome_system(&ev, &day(), &mut dome, &islands(), Some(island), &mut weather, &tuning);
    assert_eq!(event, vec![NavigationEvent::Approach(fx(0.2))]);
    assert_eq!(dome, SkyDome { rotation: start, locked_island: false });
}

#[test]
fn release_pushes_the_dome_off_the_island() {
    let tuning = SkyTuning::standard();
    // boat east of the island: the push turns about z
    let q = released(Quat::identity(), vec3(600.0, 2.0, 0.0), vec3(0.0, 7.0, 0.0), tuning);
    assert!(quat_close(q, Quat::from_rotation_z(fx(HALF_PI * 0.05)), 5), "{:?}", q);
    // boat north of it: about x
    let q = released(Quat::identity(), vec3(0.0, 0.0, 600.0), Vec3::zero(), tuning);
    assert!(quat_close(q, Quat::from_rotation_x(fx(-HALF_PI * 0.05)), 5), "{:?}", q);
    // boat at the island: no push at all
    let sky = Quat::from_rotation_y(fx(0.4));
    assert!(quat_close(released(sky, vec3(1.0, 5.0, 1.0), vec3(1.0, 0.0, 1.0), tuning), sky, 2));
}

#[test]
fn events_fit_their_mode() {
    let enter = NavigationEvent::Enter(Island::Home, Quat::identity(), Vec3::zero());
    assert!(event_fits(&night(), &enter));
    assert!(!event_fits(&day(), &enter));
    assert!(event_fits(&day(), &NavigationEvent::Approach(5)));
    assert!(!event_fits(&night(), &NavigationEvent::Approach(5)));
    assert!(event_fits(&day(), &NavigationEvent::Leave));
    assert!(!event_fits(&night(), &NavigationEvent::Leave));
}

#[test]
fn entering_brings_the_day() {
    let mut state = night();
    let mut world = None;
    let rotation = Quat::from_rotation_x(fx(0.1));
    let enter = NavigationEvent::Enter(Island::IslandA, rotation, vec3(30.0, 0.0, 40.0));
    island_enter_leave(&mut state, &enter, &mut world);
    assert_eq!(state.time, DayTime::Day);
    assert_eq!(
        world,
        Some(WorldIsland { island: Island::IslandA, sky_rotation: rotation, translation: vec3(30.0, 0.0, 40.0) })
    );
}

#[test]
fn approaching_changes_nothing() {
    let mut state = day();
    let island = island_at(vec3(1.0, 0.0, 2.0));
    let mut world = Some(island);
    island_enter_leave(&mut state, &NavigationEvent::Approach(fx(0.5)), &mut world);
    assert_eq!(state.time, DayTime::Day);
    assert_eq!(world, Some(island));
}

#[test]
fn leaving_brings_the_night() {
    let mut state = day();
    let mut world = Some(island_at(vec3(1.0, 0.0, 2.0)));
    island_enter_leave(&mut state, &NavigationEvent::Leave, &mut world);
    assert_eq!(state.time, DayTime::Night);
    assert_eq!(world, None);
}

#[test]
fn the_game_is_played_or_paused() {
    assert!(AppState::InGame != AppState::Menu);
    assert_eq!(AppState::InGame.clone(), AppState::InGame);
}

#[test]
fn a_voyage_begins_at_night() {
    let voyage = Voyage::new();
    assert_eq!(voyage.state.time, DayTime::Night);
    assert_eq!(voyage.skydome, SkyDome::new());
    assert_eq!(voyage.world_island, None);
    assert_eq!(voyage.weather.wave_intensity, SCALE);
}

#[test]
fn an_island_overhead_is_entered_once() {
    let tuning = SkyTuning::standard();
    let all = islands();
    let mut voyage = Voyage::new();
    let mut translation = Vec3::zero();
    let jump = vec3(0.0, 0.0, 1000.0);
    let mut enters = 0;
    let mut ticks = 0;
    // sail on in long jumps until an island stands overhead
    while enters == 0 {
        ticks += 1;
        assert!(ticks <= 1_000, "no island after {} ticks", ticks);
        translation = translation.plus(jump);
        let event = voyage.sail(&MoveEvent { jump, translation }, &all, &tuning);
        if let Ok(Some(NavigationEvent::Enter(_, _, _))) = event {
            enters += 1;
        } else {
            assert_eq!(event, Ok(None));
        }
    }
    assert_eq!(voyage.state.time, DayTime::Day);
    let island = voyage.world_island.expect("an island in the water");
    let overhead = voyage.skydome.rotation;
    // while the boat lies there the island stays overhead, and is not
    // entered again
    let mut rest = 0;
    while rest < 50 {
        let event = voyage.sail(
            &MoveEvent { jump: Vec3 { x: 0, y: 0, z: 1 }, translation },
            &all,
            &tuning,
        );
        assert!(matches!(event, Ok(Some(NavigationEvent::Approach(_)))), "{:?}", event);
        assert!(island_direction(overhead, island.sky_rotation).y > tuning.enter_alignment);
        rest += 1;
    }
    assert_eq!(enters, 1);
    assert_eq!(voyage.state.time, DayTime::Day);
    assert_eq!(voyage.world_island, Some(island));
}

#[test]
fn a_voyage_from_island_to_night() {
    let tuning = SkyTuning::standard();
    let all = islands();
    let mut voyage = Voyage::new();
    voyage.state = day();
    voyage.world_island = Some(island_at(Vec3::zero()));
    // approach
    let event = voyage.sail(&moved_to(vec3(0.0, 0.0, 140.0)), &all, &tuning);
    assert_eq!(event, Ok(Some(NavigationEvent::Approach(fx(0.8)))));
    assert_eq!(voyage.state.time, DayTime::Day);
    assert!(voyage.skydome.locked_island);
    assert_eq!(voyage.weather.wave_intensity, fx(0.25));
    // draw away
    let event = voyage.sail(&moved_to(vec3(0.0, 0.0, 630.0)), &all, &tuning);
    assert_eq!(event, Ok(Some(NavigationEvent::Approach(fx(0.1)))));
    assert!(!voyage.skydome.locked_island);
    assert_eq!(voyage.weather.wave_intensity, SCALE);
    // leave
    let event = voyage.sail(&moved_to(vec3(0.0, 0.0, 705.0)), &all, &tuning);
    assert_eq!(event, Ok(Some(NavigationEvent::Leave)));
    assert_eq!(voyage.state.time, DayTime::Night);
    assert_eq!(voyage.world_island, None);
    // and at night the dome turns again
    let before = voyage.skydome.rotation;
    let ev = moved_to(vec3(0.0, 0.0, 706.0));
    let outcome = voyage.sail(&ev, &all, &tuning);
    assert_eq!(voyage.skydome.rotation, advance(before, ev.jump, tuning.sky_scale));
    // the island that held the dome still stands nearly overhead, and is
    // entered again
    assert!(matches!(outcome, Ok(Some(NavigationEvent::Enter(Island::Home, _, _)))), "{:?}", outcome);
    assert_eq!(voyage.state.time, DayTime::Day);
    assert!(quat_is_unit(voyage.skydome.rotation));
}
