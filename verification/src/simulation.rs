//! One tick of the whole: boat, sea and navigation in their order.
//!
//! A tick first moves the boat over the sea as it lies, then lets
//! navigation answer the movement, then gives the sea the waves of the
//! weather that navigation left. Each stage sees what the stage before it
//! made in the same tick.
use vstd::prelude::*;
use crate::boat::{
    boat_physics_system, spec_move_event, spec_transform_after, BoatTuning, MoveEvent, PlayerBoat,
};
use crate::fixed::SCALE;
use crate::navigation::{InvalidTransition, NavigationEvent};
use crate::quat::{Quat, Transform};
use crate::sky::{lemma_dome_stays_unit, SkyDomeIsland, SkyTuning};
use crate::vector::Vec3;
use crate::voyage::Voyage;
use crate::water::{get_waves, set_waves, spec_get_waves, Water};

verus! {

/// How fast the waves run against the clock.
pub const WAVE_SPEED: i64 = 800_000_000;

/// Everything that lasts from tick to tick.
#[derive(Clone, Copy, Debug)]
pub struct Simulation {
    pub boat: PlayerBoat,
    pub boat_transform: Transform,
    pub water: Water,
    pub voyage: Voyage,
}

/// What one tick tells the rest of the game.
#[derive(Clone, Copy, Debug, PartialEq, Eq, Structural)]
pub struct TickEvents {
    /// The boat's movement, if it moved.
    pub moved: Option<MoveEvent>,
    /// What navigation made of the movement.
    pub navigation: Option<NavigationEvent>,
}

/// The tuning of a simulation.
#[derive(Clone, Copy, Debug, PartialEq, Eq, Structural)]
pub struct Tuning {
    pub boat: BoatTuning,
    pub sky: SkyTuning,
}

impl Tuning {
    /// Both tunings are well formed, and the brightest sky does not turn
    /// the weather negative.
    pub open spec fn wf(self) -> bool {
        self.boat.wf() && self.sky.wf() && self.sky.value_cap <= SCALE
    }

    /// What `standard` returns.
    pub open spec fn spec_standard() -> Tuning {
        Tuning { boat: BoatTuning::spec_standard(), sky: SkyTuning::spec_standard() }
    }

    /// The tuning the game is played with.
    #[verifier::when_used_as_spec(spec_standard)]
    pub fn standard() -> (r: Tuning)
        ensures
            r == Tuning::spec_standard(),
            r.wf(),
    {
        Tuning { boat: BoatTuning::standard(), sky: SkyTuning::standard() }
    }

    /// Whether the tuning is well formed.
    pub fn is_valid(&self) -> (r: bool)
        ensures
            r == self.wf(),
    {
        self.boat.mass > 0 && self.boat.takeoff_speed > 0 && self.sky.leave_threshold > 0
            && self.sky.value_cap <= SCALE
    }
}

impl Simulation {
    /// The sea can be sampled, the weather is not negative, and the dome is
    /// a unit quaternion.
    pub open spec fn wf(self) -> bool {
        &&& self.water.wf()
        &&& self.voyage.weather.wave_intensity >= 0
        &&& self.voyage.skydome.rotation.is_unit()
    }

    /// What `new` returns.
    pub open spec fn spec_new() -> Simulation {
        Simulation {
            boat: PlayerBoat::spec_new(),
            boat_transform: Transform {
                translation: Vec3::spec_zero(),
                rotation: Quat::spec_identity(),
            },
            water: Water { waves: spec_get_waves(SCALE), wave_speed: WAVE_SPEED },
            voyage: Voyage::spec_new(),
        }
    }

    /// A boat at rest at the origin, on the sea of an ordinary day, at the
    /// beginning of a voyage.
    #[verifier::when_used_as_spec(spec_new)]
    pub fn new() -> (r: Simulation)
        ensures
            r == Simulation::spec_new(),
            r.wf(),
    {
        Simulation {
            boat: PlayerBoat::new(),
            boat_transform: Transform { translation: Vec3::zero(), rotation: Quat::identity() },
            water: Water { waves: get_waves(SCALE), wave_speed: WAVE_SPEED },
            voyage: Voyage::new(),
        }
    }

    /// The simulation and its events after a tick of `dt` seconds at the
    /// clock time `seconds`.
    pub open spec fn spec_tick(
        self,
        dt: i64,
        seconds: i64,
        islands: Seq<SkyDomeIsland>,
        tuning: Tuning,
    ) -> (Simulation, Result<TickEvents, InvalidTransition>) {
        let boat = self.boat.stepped(dt, tuning.boat);
        let boat_transform = spec_transform_after(
            self.boat,
            self.boat_transform,
            dt,
            seconds,
            Some(self.water),
            tuning.boat,
        );
        let moved = spec_move_event(
            self.boat,
            self.boat_transform,
            dt,
            seconds,
            Some(self.water),
            tuning.boat,
        );
        let sailed = match moved {
            Some(ev) => self.voyage.spec_sail(ev, islands, tuning.sky),
            None => (self.voyage, Ok(None)),
        };
        (
            Simulation {
                boat,
                boat_transform,
                water: Water {
                    waves: spec_get_waves(sailed.0.weather.wave_intensity),
                    wave_speed: self.water.wave_speed,
                },
                voyage: sailed.0,
            },
            match sailed.1 {
                Ok(navigation) => Ok(TickEvents { moved, navigation }),
                Err(fault) => Err(fault),
            },
        )
    }

    /// Takes the simulation through one tick.
    ///
    /// The boat moves over the sea as it lies; if it moved, navigation
    /// answers the movement; then the sea takes the waves of the weather.
    /// Navigation makes an event only of a movement. A fault of navigation
    /// is returned in place of the events; the tick is taken all the same.
    /// A well-formed simulation stays well formed.
    pub fn tick(&mut self, dt: i64, seconds: i64, islands: &Vec<SkyDomeIsland>, tuning: &Tuning) -> (r:
        Result<TickEvents, InvalidTransition>)
        requires
            old(self).wf(),
            tuning.wf(),
        ensures
            (*final(self), r) == old(self).spec_tick(dt, seconds, islands@, *tuning),
            final(self).wf(),
            r matches Ok(events) ==> (events.moved is None ==> events.navigation is None),
    {
        let moved = boat_physics_system(
            dt,
            seconds,
            &mut self.boat,
            &mut self.boat_transform,
            Some(self.water),
            &tuning.boat,
        );
        let sailed = match moved {
            Some(ev) => {
                proof {
                    lemma_weather_stays(self.voyage, ev, islands@, tuning.sky);
                }
                self.voyage.sail(&ev, islands, &tuning.sky)
            },
            None => Ok(None),
        };
        set_waves(&mut self.water, self.voyage.weather.wave_intensity);
        match sailed {
            Ok(navigation) => Ok(TickEvents { moved, navigation }),
            Err(fault) => Err(fault),
        }
    }
}

/// Weather that is not negative stays so through a step of navigation, as
/// long as the brightest sky is no brighter than one.
pub proof fn lemma_weather_stays(
    voyage: Voyage,
    ev: MoveEvent,
    islands: Seq<SkyDomeIsland>,
    tuning: SkyTuning,
)
    requires
        voyage.weather.wave_intensity >= 0,
        tuning.value_cap <= SCALE,
    ensures
        voyage.spec_sail(ev, islands, tuning).0.weather.wave_intensity >= 0,
{
}

/// A well-formed simulation stays well formed from tick to tick.
pub proof fn lemma_tick_keeps_wf(
    simulation: Simulation,
    dt: i64,
    seconds: i64,
    islands: Seq<SkyDomeIsland>,
    tuning: Tuning,
)
    requires
        simulation.wf(),
        tuning.wf(),
    ensures
        simulation.spec_tick(dt, seconds, islands, tuning).0.wf(),
{
    let moved = spec_move_event(
        simulation.boat,
        simulation.boat_transform,
        dt,
        seconds,
        Some(simulation.water),
        tuning.boat,
    );
    if let Some(ev) = moved {
        lemma_weather_stays(simulation.voyage, ev, islands, tuning.sky);
        lemma_dome_stays_unit(
            ev,
            simulation.voyage.state.time,
            simulation.voyage.skydome,
            islands,
            simulation.voyage.world_island,
            simulation.voyage.weather.wave_intensity,
            tuning.sky,
        );
    }
}

} // verus!
