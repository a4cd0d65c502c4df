use ocean_nav::fixed::SCALE;
use ocean_nav::navigation::{DayTime, InvalidTransition, Island, NavigationEvent};
use ocean_nav::quat::Quat;
use ocean_nav::simulation::{Simulation, TickEvents, Tuning};
use ocean_nav::sky::{celestial_islands, SkyDomeIsland};
use ocean_nav::vector::{Vec2, Vec3};
use ocean_nav::water::{get_waves, Water, WaveError};

fn fx(v: f64) -> i64 {
    (v * 1e9).round() as i64
}

fn vec3(x: f64, y: f64, z: f64) -> Vec3 {
    Vec3 { x: fx(x), y: fx(y), z: fx(z) }
}

fn quat_is_unit(q: Quat) -> bool {
    let n = (q.x as i128).pow(2) + (q.y as i128).pow(2) + (q.z as i128).pow(2) + (q.w as i128).pow(2);
    (SCALE as i128 - 10_000).pow(2) <= n && n <= (SCALE as i128 + 10_000).pow(2)
}

#[test]
fn a_simulation_begins_at_rest() {
    let simulation = Simulation::new();
    assert_eq!(simulation.boat.speed, 0);
    assert_eq!(simulation.boat_transform.translation, Vec3::zero());
    assert_eq!(simulation.water.waves, get_waves(SCALE));
    assert_eq!(simulation.water.wave_speed, fx(0.8));
    assert_eq!(simulation.voyage.state.time, DayTime::Night);
    assert!(Tuning::standard().is_valid());
}

#[test]
fn one_tick_full_ahead() {
    let mut simulation = Simulation::new();
    simulation.boat.throttle = SCALE;
    let islands = celestial_islands();
    let events = simulation.tick(fx(0.1), 0, &islands, &Tuning::standard()).expect("no fault");
    assert!(simulation.boat.speed > 0);
    assert_eq!(simulation.boat.speed, fx(10.0));
    let moved = events.moved.expect("one movement");
    assert_eq!(moved.jump, vec3(0.0, 0.0, 1.0));
    assert!(moved.jump.z > fx(0.5));
    assert_eq!(moved.translation, simulation.boat_transform.translation);
    assert_eq!(events.navigation, None);
    // the dome has answered the jump
    assert!(simulation.voyage.skydome.rotation != Quat::identity());
    assert!(quat_is_unit(simulation.voyage.skydome.rotation));
}

#[test]
fn a_tick_at_rest_makes_no_event() {
    let mut simulation = Simulation::new();
    let before = simulation.voyage;
    let events = simulation.tick(fx(0.1), fx(5.0), &celestial_islands(), &Tuning::standard());
    assert_eq!(events, Ok(TickEvents { moved: None, navigation: None }));
    assert_eq!(simulation.voyage, before);
    // the boat rides the water where it lies
    assert_eq!(
        simulation.boat_transform.translation.y,
        simulation.water.height_at_point(Vec2 { x: 0, y: 0 }, fx(4.0))
    );
}

#[test]
fn sailing_to_an_island_and_away() {
    let tuning = Tuning::standard();
    // an island that a short sail brings overhead
    let islands = vec![SkyDomeIsland::new(Island::IslandB, Quat::from_rotation_x(fx(0.2)))];
    let mut simulation = Simulation::new();
    simulation.boat.throttle = SCALE;
    let mut enters = 0;
    let mut approaches = 0;
    let mut leaves = 0;
    let mut moves = 0;
    let mut tick: i64 = 0;
    while tick < 3_000 {
        let events =
            simulation.tick(fx(0.05), tick * 50_000_000, &islands, &tuning).expect("no fault");
        if events.moved.is_some() {
            moves += 1;
        }
        match events.navigation {
            Some(NavigationEvent::Enter(island, _, point)) => {
                enters += 1;
                assert_eq!(island, Island::IslandB);
                assert_eq!(point.y, 0);
                assert_eq!(simulation.voyage.state.time, DayTime::Day);
            }
            Some(NavigationEvent::Approach(fraction)) => {
                approaches += 1;
                assert!(0 <= fraction && fraction <= SCALE);
                assert_eq!(simulation.voyage.state.time, DayTime::Day);
                assert!(simulation.voyage.weather.wave_intensity >= fx(0.25));
                assert!(simulation.voyage.weather.wave_intensity <= SCALE);
            }
            Some(NavigationEvent::Leave) => {
                leaves += 1;
                assert_eq!(simulation.voyage.state.time, DayTime::Night);
                assert_eq!(simulation.voyage.world_island, None);
            }
            None => assert_eq!(simulation.voyage.state.time, DayTime::Night),
        }
        assert!(quat_is_unit(simulation.voyage.skydome.rotation));
        assert_eq!(simulation.water.waves, get_waves(simulation.voyage.weather.wave_intensity));
        tick += 1;
    }
    assert_eq!(moves, 3_000);
    assert!(enters >= 1, "the island was never entered");
    assert!(approaches > 0);
    assert_eq!(leaves, enters);
}

#[test]
fn a_sea_is_refused_for_its_first_bad_wave() {
    let good = get_waves(SCALE);
    assert_eq!(Water::new(good, fx(0.8)).map(|w| w.waves), Ok(good));
    let mut waves = good;
    waves[1].wavelength = 0;
    waves[2].steepness = -1;
    assert_eq!(Water::new(waves, fx(0.8)).err(), Some(WaveError::Wavelength));
    let mut waves = good;
    waves[2].steepness = -1;
    assert_eq!(Water::new(waves, fx(0.8)).err(), Some(WaveError::Steepness));
    let mut waves = good;
    waves[0].direction = Vec2 { x: 0, y: 0 };
    waves[1].steepness = -5;
    assert_eq!(Water::new(waves, fx(0.8)).err(), Some(WaveError::Direction));
}

#[test]
fn a_tick_under_two_islands_reports_the_fault() {
    let tuning = Tuning::standard();
    let islands = vec![
        SkyDomeIsland::new(Island::Home, Quat::identity()),
        SkyDomeIsland::new(Island::IslandB, Quat::from_rotation_z(fx(0.02))),
    ];
    let mut simulation = Simulation::new();
    simulation.boat.throttle = SCALE;
    let outcome = simulation.tick(fx(0.1), 0, &islands, &tuning);
    assert!(
        matches!(
            outcome,
            Err(InvalidTransition {
                time: DayTime::Day,
                event: NavigationEvent::Enter(Island::IslandB, _, _)
            })
        ),
        "{:?}",
        outcome
    );
    // the tick was taken all the same: the boat has moved, the first
    // island was entered
    assert_eq!(simulation.boat.speed, fx(10.0));
    assert_eq!(simulation.boat_transform.translation.z, fx(1.0));
    assert_eq!(simulation.voyage.state.time, DayTime::Day);
    assert_eq!(simulation.voyage.world_island.map(|w| w.island), Some(Island::Home));
}
