//! The whole of navigation in one state: mode, dome, island and weather,
//! stepped in the order in which one tick must see them.
//!
//! A step first lets the dome answer the boat's movement and then receives
//! the events that this made, one after the other, so the mode is always
//! the one that the next event meets. An event that meets a mode it was
//! not made for is a fault: the second of two islands that stand overhead
//! at once finds the day that the first has brought.
use vstd::prelude::*;
use crate::boat::MoveEvent;
use crate::fixed::SCALE;
use crate::navigation::{
    lemma_fault_stays, receive_events, spec_receive, DayTime, InGameState, InvalidTransition,
    NavigationEvent, WorldIsland,
};
use crate::sky::{
    enter_event, is_overhead, lemma_dome_stays_unit, lemma_night_event_enters,
    lemma_night_events_none, lemma_night_events_push, overhead_islands, skydome_system,
    spec_advance, spec_skydome_system, SkyDome, SkyDomeIsland, SkyTuning,
};
use crate::water::Weather;

verus! {

/// Everything that navigation keeps from one tick to the next.
#[derive(Clone, Copy, Debug, PartialEq, Eq, Structural)]
pub struct Voyage {
    pub state: InGameState,
    pub skydome: SkyDome,
    pub world_island: Option<WorldIsland>,
    pub weather: Weather,
}

/// The step entered an island.
pub open spec fn is_enter(outcome: Result<Option<NavigationEvent>, InvalidTransition>) -> bool {
    outcome matches Ok(Some(NavigationEvent::Enter(_, _, _)))
}

/// The step left an island.
pub open spec fn is_leave(outcome: Result<Option<NavigationEvent>, InvalidTransition>) -> bool {
    outcome == Ok::<Option<NavigationEvent>, InvalidTransition>(Some(NavigationEvent::Leave))
}

impl Voyage {
    /// What `new` returns.
    pub open spec fn spec_new() -> Voyage {
        Voyage {
            state: InGameState { time: DayTime::Night },
            skydome: SkyDome::spec_new(),
            world_island: None,
            weather: Weather { wave_intensity: SCALE },
        }
    }

    /// A voyage begins at night, under a dome that has not turned, with no
    /// island in the water and ordinary weather.
    #[verifier::when_used_as_spec(spec_new)]
    pub fn new() -> (r: Voyage)
        ensures
            r == Voyage::spec_new(),
            r.skydome.rotation.is_unit(),
    {
        Voyage {
            state: InGameState { time: DayTime::Night },
            skydome: SkyDome::new(),
            world_island: None,
            weather: Weather { wave_intensity: SCALE },
        }
    }

    /// One if it is day, nothing if it is night.
    pub open spec fn days(self) -> int {
        if self.state.time == DayTime::Day {
            1
        } else {
            0
        }
    }

    /// The voyage after one movement of the boat, and what the step came
    /// to: the events of the dome's step are received in their order; if
    /// all fit, the first of them is the outcome, and else the fault.
    pub open spec fn spec_sail(self, ev: MoveEvent, islands: Seq<SkyDomeIsland>, tuning: SkyTuning)
        -> (Voyage, Result<Option<NavigationEvent>, InvalidTransition>) {
        let step = spec_skydome_system(
            ev,
            self.state.time,
            self.skydome,
            islands,
            self.world_island,
            self.weather.wave_intensity,
            tuning,
        );
        let received = spec_receive(
            self.state.time,
            self.world_island,
            step.events,
            step.events.len() as int,
        );
        (
            Voyage {
                state: InGameState { time: received.time },
                skydome: step.dome,
                world_island: received.world_island,
                weather: Weather { wave_intensity: step.wave_intensity },
            },
            match received.fault {
                Some(fault) => Err(fault),
                None => Ok(
                    if step.events.len() == 0 {
                        None
                    } else {
                        Some(step.events[0])
                    },
                ),
            },
        )
    }

    /// Takes one movement of the boat through navigation: the dome answers
    /// it, and the events that this makes are received at once, in their
    /// order.
    ///
    /// By day there is at most one event and it fits. At night every island
    /// overhead makes one: the first brings the day, and a second then
    /// meets the day and is the fault that is returned. Without a fault at
    /// most one event was made, and it is returned.
    pub fn sail(&mut self, ev: &MoveEvent, islands: &Vec<SkyDomeIsland>, tuning: &SkyTuning) -> (r:
        Result<Option<NavigationEvent>, InvalidTransition>)
        requires
            tuning.wf(),
        ensures
            (*final(self), r) == old(self).spec_sail(*ev, islands@, *tuning),
            old(self).skydome.rotation.is_unit() ==> final(self).skydome.rotation.is_unit(),
            old(self).state.time == DayTime::Day ==> r is Ok,
            r is Ok ==> spec_skydome_system(
                *ev,
                old(self).state.time,
                old(self).skydome,
                islands@,
                old(self).world_island,
                old(self).weather.wave_intensity,
                *tuning,
            ).events.len() <= 1,
    {
        proof {
            lemma_sail(*self, *ev, islands@, *tuning);
        }
        let events = skydome_system(
            ev,
            &self.state,
            &mut self.skydome,
            islands,
            self.world_island,
            &mut self.weather,
            tuning,
        );
        match receive_events(&mut self.state, &events, &mut self.world_island) {
            Some(fault) => Err(fault),
            None => {
                if events.len() == 0 {
                    Ok(None)
                } else {
                    Ok(Some(events[0]))
                }
            },
        }
    }
}

/// What a step of the voyage comes to.
///
/// By day it never faults and never enters: it leaves the island, and the
/// night falls, or approaches it, or does nothing where no island lies. At
/// night it goes by the islands overhead once the dome has turned: with
/// none, nothing happens; with one, that island is entered and the day
/// comes; with more, the first is entered, and the second is the fault.
pub proof fn lemma_sail(voyage: Voyage, ev: MoveEvent, islands: Seq<SkyDomeIsland>, tuning: SkyTuning)
    ensures
        ({
            let next = voyage.spec_sail(ev, islands, tuning);
            let step = spec_skydome_system(
                ev,
                voyage.state.time,
                voyage.skydome,
                islands,
                voyage.world_island,
                voyage.weather.wave_intensity,
                tuning,
            );
            let rotation = spec_advance(voyage.skydome.rotation, ev.jump, tuning.sky_scale);
            let over = overhead_islands(rotation, islands, tuning);
            &&& next.1 is Ok ==> step.events.len() <= 1
            &&& voyage.state.time == DayTime::Day ==> {
                &&& next.1 is Ok
                &&& !is_enter(next.1)
                &&& is_leave(next.1) ==> next.0.state.time == DayTime::Night
                    && next.0.world_island is None
                &&& !is_leave(next.1) ==> next.0.state.time == DayTime::Day
                    && next.0.world_island == voyage.world_island
            }
            &&& voyage.state.time == DayTime::Night ==> {
                &&& !is_leave(next.1)
                &&& over.len() == 0 ==> next.1 == Ok::<Option<NavigationEvent>, InvalidTransition>(
                    None,
                ) && next.0.state.time == DayTime::Night && next.0.world_island
                    == voyage.world_island
                &&& over.len() >= 1 ==> next.0.state.time == DayTime::Day && next.0.world_island
                    is Some
                &&& over.len() == 1 ==> next.1 == Ok::<Option<NavigationEvent>, InvalidTransition>(
                    Some(enter_event(rotation, over[0], ev.translation, tuning)),
                )
                &&& over.len() >= 2 ==> next.1 == Err::<
                    Option<NavigationEvent>,
                    InvalidTransition,
                >(
                    InvalidTransition {
                        time: DayTime::Day,
                        event: enter_event(rotation, over[1], ev.translation, tuning),
                    },
                )
            }
        }),
{
    let step = spec_skydome_system(
        ev,
        voyage.state.time,
        voyage.skydome,
        islands,
        voyage.world_island,
        voyage.weather.wave_intensity,
        tuning,
    );
    let n = step.events.len() as int;
    reveal_with_fuel(spec_receive, 3);
    if voyage.state.time == DayTime::Night {
        let rotation = spec_advance(voyage.skydome.rotation, ev.jump, tuning.sky_scale);
        if n >= 1 {
            lemma_night_event_enters(rotation, islands, ev.translation, tuning, 0);
        }
        if n >= 2 {
            lemma_night_event_enters(rotation, islands, ev.translation, tuning, 1);
            assert(spec_receive(voyage.state.time, voyage.world_island, step.events, 2).fault
                is Some);
            lemma_fault_stays(voyage.state.time, voyage.world_island, step.events, 2, n);
        }
    }
}

/// An island is entered only at night, and entering it brings the day.
pub proof fn lemma_enter_brings_day(
    voyage: Voyage,
    ev: MoveEvent,
    islands: Seq<SkyDomeIsland>,
    tuning: SkyTuning,
)
    ensures
        is_enter(voyage.spec_sail(ev, islands, tuning).1) ==> voyage.state.time == DayTime::Night
            && voyage.spec_sail(ev, islands, tuning).0.state.time == DayTime::Day
            && voyage.spec_sail(ev, islands, tuning).0.world_island is Some,
        voyage.state.time == DayTime::Day ==> !is_enter(voyage.spec_sail(ev, islands, tuning).1),
{
    lemma_sail(voyage, ev, islands, tuning);
}

/// An island overhead is entered once: of two movements that follow one
/// another, not both enter an island, however the dome stands after the
/// first.
pub proof fn lemma_enter_fires_once(
    voyage: Voyage,
    first: MoveEvent,
    second: MoveEvent,
    islands: Seq<SkyDomeIsland>,
    tuning: SkyTuning,
)
    ensures
        ({
            let one = voyage.spec_sail(first, islands, tuning);
            let two = one.0.spec_sail(second, islands, tuning);
            is_enter(one.1) ==> !is_enter(two.1)
        }),
{
    lemma_enter_brings_day(voyage, first, islands, tuning);
    lemma_enter_brings_day(voyage.spec_sail(first, islands, tuning).0, second, islands, tuning);
}

/// The dome of a voyage stays a unit quaternion from step to step.
pub proof fn lemma_voyage_dome_unit(
    voyage: Voyage,
    ev: MoveEvent,
    islands: Seq<SkyDomeIsland>,
    tuning: SkyTuning,
)
    requires
        voyage.skydome.rotation.is_unit(),
    ensures
        voyage.spec_sail(ev, islands, tuning).0.skydome.rotation.is_unit(),
{
    lemma_dome_stays_unit(
        ev,
        voyage.state.time,
        voyage.skydome,
        islands,
        voyage.world_island,
        voyage.weather.wave_intensity,
        tuning,
    );
}

/// By day there is an island in the water: a voyage that has one whenever
/// it is day keeps it so.
pub proof fn lemma_day_has_island(
    voyage: Voyage,
    ev: MoveEvent,
    islands: Seq<SkyDomeIsland>,
    tuning: SkyTuning,
)
    requires
        voyage.state.time == DayTime::Day ==> voyage.world_island is Some,
    ensures
        ({
            let next = voyage.spec_sail(ev, islands, tuning).0;
            next.state.time == DayTime::Day ==> next.world_island is Some
        }),
{
    lemma_sail(voyage, ev, islands, tuning);
}

/// The voyage after the first `n` of `moves`, each taken through `sail`.
pub open spec fn spec_run(
    voyage: Voyage,
    moves: Seq<MoveEvent>,
    islands: Seq<SkyDomeIsland>,
    tuning: SkyTuning,
    n: int,
) -> Voyage
    decreases n,
{
    if n <= 0 {
        voyage
    } else {
        spec_run(voyage, moves, islands, tuning, n - 1).spec_sail(moves[n - 1], islands, tuning).0
    }
}

/// What the `k`th of `moves` came to.
pub open spec fn outcome_at(
    voyage: Voyage,
    moves: Seq<MoveEvent>,
    islands: Seq<SkyDomeIsland>,
    tuning: SkyTuning,
    k: int,
) -> Result<Option<NavigationEvent>, InvalidTransition> {
    spec_run(voyage, moves, islands, tuning, k).spec_sail(moves[k], islands, tuning).1
}

/// How many of the first `n` of `moves` entered an island.
pub open spec fn enters_in(
    voyage: Voyage,
    moves: Seq<MoveEvent>,
    islands: Seq<SkyDomeIsland>,
    tuning: SkyTuning,
    n: int,
) -> int
    decreases n,
{
    if n <= 0 {
        0
    } else {
        enters_in(voyage, moves, islands, tuning, n - 1) + if is_enter(
            outcome_at(voyage, moves, islands, tuning, n - 1),
        ) {
            1int
        } else {
            0int
        }
    }
}

/// How many of the first `n` of `moves` left an island.
pub open spec fn leaves_in(
    voyage: Voyage,
    moves: Seq<MoveEvent>,
    islands: Seq<SkyDomeIsland>,
    tuning: SkyTuning,
    n: int,
) -> int
    decreases n,
{
    if n <= 0 {
        0
    } else {
        leaves_in(voyage, moves, islands, tuning, n - 1) + if is_leave(
            outcome_at(voyage, moves, islands, tuning, n - 1),
        ) {
            1int
        } else {
            0int
        }
    }
}

/// None of the first `n` of `moves` met a fault.
pub open spec fn faultless(
    voyage: Voyage,
    moves: Seq<MoveEvent>,
    islands: Seq<SkyDomeIsland>,
    tuning: SkyTuning,
    n: int,
) -> bool {
    forall|k: int| 0 <= k < n ==> (#[trigger] outcome_at(voyage, moves, islands, tuning, k)) is Ok
}

/// Over any run of movements without a fault, islands are entered and left
/// in turn: the enterings exceed the leavings by one if the run went from
/// night to day, fall short by one if it went from day to night, and equal
/// them else.
pub proof fn lemma_enters_and_leaves(
    voyage: Voyage,
    moves: Seq<MoveEvent>,
    islands: Seq<SkyDomeIsland>,
    tuning: SkyTuning,
    n: int,
)
    requires
        0 <= n <= moves.len(),
        faultless(voyage, moves, islands, tuning, n),
    ensures
        0 <= enters_in(voyage, moves, islands, tuning, n),
        0 <= leaves_in(voyage, moves, islands, tuning, n),
        enters_in(voyage, moves, islands, tuning, n) - leaves_in(voyage, moves, islands, tuning, n)
            == spec_run(voyage, moves, islands, tuning, n).days() - voyage.days(),
    decreases n,
{
    if n > 0 {
        lemma_enters_and_leaves(voyage, moves, islands, tuning, n - 1);
        let before = spec_run(voyage, moves, islands, tuning, n - 1);
        assert(outcome_at(voyage, moves, islands, tuning, n - 1) is Ok);
        lemma_sail(before, moves[n - 1], islands, tuning);
        lemma_enter_brings_day(before, moves[n - 1], islands, tuning);
    }
}

/// However long an island stands overhead, it is entered once: over a run
/// of movements without a fault in which no island is left, at most one
/// movement enters an island, and none does if the run began by day.
pub proof fn lemma_entered_once(
    voyage: Voyage,
    moves: Seq<MoveEvent>,
    islands: Seq<SkyDomeIsland>,
    tuning: SkyTuning,
    n: int,
)
    requires
        0 <= n <= moves.len(),
        faultless(voyage, moves, islands, tuning, n),
        leaves_in(voyage, moves, islands, tuning, n) == 0,
    ensures
        enters_in(voyage, moves, islands, tuning, n) <= 1,
        voyage.state.time == DayTime::Day ==> enters_in(voyage, moves, islands, tuning, n) == 0,
{
    lemma_enters_and_leaves(voyage, moves, islands, tuning, n);
}

/// At night, with a single island in the sky, a movement enters it exactly
/// when it stands overhead once the dome has turned; before that nothing is
/// entered.
pub proof fn lemma_enter_when_overhead(
    voyage: Voyage,
    ev: MoveEvent,
    island: SkyDomeIsland,
    tuning: SkyTuning,
)
    requires
        voyage.state.time == DayTime::Night,
    ensures
        ({
            let rotation = spec_advance(voyage.skydome.rotation, ev.jump, tuning.sky_scale);
            let outcome = voyage.spec_sail(ev, seq![island], tuning).1;
            &&& outcome is Ok
            &&& is_overhead(rotation, island, tuning) ==> outcome == Ok::<
                Option<NavigationEvent>,
                InvalidTransition,
            >(Some(enter_event(rotation, island, ev.translation, tuning)))
            &&& !is_overhead(rotation, island, tuning) ==> outcome == Ok::<
                Option<NavigationEvent>,
                InvalidTransition,
            >(None)
        }),
{
    let rotation = spec_advance(voyage.skydome.rotation, ev.jump, tuning.sky_scale);
    let islands = seq![island];
    lemma_sail(voyage, ev, islands, tuning);
    lemma_night_events_none(rotation, ev.translation, tuning);
    lemma_night_events_push(
        rotation,
        Seq::<SkyDomeIsland>::empty(),
        island,
        ev.translation,
        tuning,
    );
    assert(Seq::<SkyDomeIsland>::empty().push(island) =~= islands);
}

} // verus!
