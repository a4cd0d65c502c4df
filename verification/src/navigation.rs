//! Day and night: the mode of the voyage and the events that change it.
//!
//! At night the boat sails under the stars until an island stands overhead;
//! entering it brings the day, in which the island lies in the water and the
//! boat approaches or leaves it.
use vstd::prelude::*;
use crate::quat::Quat;
use crate::vector::Vec3;

verus! {

/// Whether the game is played or the menu is shown.
#[derive(Clone, Copy, Debug, PartialEq, Eq, Hash, Structural)]
pub enum AppState {
    InGame,
    Menu,
}

/// The mode of the voyage.
#[derive(Clone, Copy, Debug, PartialEq, Eq, Structural)]
pub enum DayTime {
    Day,
    Night,
}

/// The navigation state that the whole game shares.
#[derive(Clone, Copy, Debug, PartialEq, Eq, Structural)]
pub struct InGameState {
    pub time: DayTime,
}

/// The islands of the sky.
#[derive(Clone, Copy, Debug, PartialEq, Eq, Structural)]
pub enum Island {
    Home,
    IslandA,
    IslandB,
}

/// What the navigation tells the rest of the game.
#[derive(Clone, Copy, Debug, PartialEq, Eq, Structural)]
pub enum NavigationEvent {
    /// An island stands overhead: its name, its place in the sky, and the
    /// point of the sea near which it is to rise.
    Enter(Island, Quat, Vec3),
    /// The boat is within reach of the island: one at its shore, zero at
    /// the distance where it is left.
    Approach(i64),
    /// The boat has left the island behind.
    Leave,
}

/// An island that lies in the water during the day.
#[derive(Clone, Copy, Debug, PartialEq, Eq, Structural)]
pub struct WorldIsland {
    pub island: Island,
    pub sky_rotation: Quat,
    pub translation: Vec3,
}

/// An island is entered only at night, approached and left only by day.
pub open spec fn spec_event_fits(time: DayTime, ev: NavigationEvent) -> bool {
    match ev {
        NavigationEvent::Enter(_, _, _) => time == DayTime::Night,
        NavigationEvent::Approach(_) => time == DayTime::Day,
        NavigationEvent::Leave => time == DayTime::Day,
    }
}

/// Whether an event can be received in the present mode. One that cannot
/// shows that sender and receiver have lost step.
pub fn event_fits(state: &InGameState, ev: &NavigationEvent) -> (r: bool)
    ensures
        r == spec_event_fits(state.time, *ev),
{
    match ev {
        NavigationEvent::Enter(_, _, _) => match state.time {
            DayTime::Night => true,
            DayTime::Day => false,
        },
        NavigationEvent::Approach(_) => match state.time {
            DayTime::Night => false,
            DayTime::Day => true,
        },
        NavigationEvent::Leave => match state.time {
            DayTime::Night => false,
            DayTime::Day => true,
        },
    }
}

/// The mode after an event.
pub open spec fn spec_time_after(time: DayTime, ev: NavigationEvent) -> DayTime {
    match ev {
        NavigationEvent::Enter(_, _, _) => DayTime::Day,
        NavigationEvent::Approach(_) => time,
        NavigationEvent::Leave => DayTime::Night,
    }
}

/// The island in the water after an event.
pub open spec fn spec_island_after(world: Option<WorldIsland>, ev: NavigationEvent) -> Option<
    WorldIsland,
> {
    match ev {
        NavigationEvent::Enter(island, sky_rotation, translation) => Some(
            WorldIsland { island, sky_rotation, translation },
        ),
        NavigationEvent::Approach(_) => world,
        NavigationEvent::Leave => None,
    }
}

/// Receives a navigation event.
///
/// Entering an island brings the day and raises the island at the landing
/// point; leaving brings the night and takes the island away; an approach
/// changes nothing.
pub fn island_enter_leave(
    state: &mut InGameState,
    ev: &NavigationEvent,
    world: &mut Option<WorldIsland>,
)
    requires
        spec_event_fits(old(state).time, *ev),
    ensures
        final(state).time == spec_time_after(old(state).time, *ev),
        *final(world) == spec_island_after(*old(world), *ev),
{
    match ev {
        NavigationEvent::Enter(island, sky_rotation, translation) => {
            state.time = DayTime::Day;
            *world = Some(
                WorldIsland {
                    island: *island,
                    sky_rotation: *sky_rotation,
                    translation: *translation,
                },
            );
        },
        NavigationEvent::Approach(_) => {},
        NavigationEvent::Leave => {
            state.time = DayTime::Night;
            *world = None;
        },
    }
}

/// An event that was made for another mode than the one it met: sender and
/// receiver have lost step.
#[derive(Clone, Copy, Debug, PartialEq, Eq, Structural)]
pub struct InvalidTransition {
    /// The mode that the event met.
    pub time: DayTime,
    /// The event that does not fit it.
    pub event: NavigationEvent,
}

/// Mode and island after some events were received, and the fault that
/// stopped the receiving, if one did.
#[derive(Clone, Copy, Debug, PartialEq, Eq, Structural)]
pub struct Received {
    pub time: DayTime,
    pub world_island: Option<WorldIsland>,
    pub fault: Option<InvalidTransition>,
}

/// Mode and island after the first `n` of `events` were received in their
/// order. The first event that does not fit the mode it meets is the
/// fault; it and the events behind it change nothing.
pub open spec fn spec_receive(
    time: DayTime,
    world_island: Option<WorldIsland>,
    events: Seq<NavigationEvent>,
    n: int,
) -> Received
    decreases n,
{
    if n <= 0 {
        Received { time, world_island, fault: None }
    } else {
        let before = spec_receive(time, world_island, events, n - 1);
        if before.fault is Some || n > events.len() {
            before
        } else if !spec_event_fits(before.time, events[n - 1]) {
            Received {
                time: before.time,
                world_island: before.world_island,
                fault: Some(InvalidTransition { time: before.time, event: events[n - 1] }),
            }
        } else {
            Received {
                time: spec_time_after(before.time, events[n - 1]),
                world_island: spec_island_after(before.world_island, events[n - 1]),
                fault: None,
            }
        }
    }
}

/// Once a fault has stopped the receiving, more events change nothing.
pub proof fn lemma_fault_stays(
    time: DayTime,
    world_island: Option<WorldIsland>,
    events: Seq<NavigationEvent>,
    m: int,
    n: int,
)
    requires
        0 <= m <= n,
        spec_receive(time, world_island, events, m).fault is Some,
    ensures
        spec_receive(time, world_island, events, n) == spec_receive(time, world_island, events, m),
    decreases n - m,
{
    if m < n {
        lemma_fault_stays(time, world_island, events, m, n - 1);
    }
}

/// Receives the events of one movement in their order, each as
/// `island_enter_leave` receives it.
///
/// The first event that does not fit the mode it meets stops the receiving
/// and is returned as the fault; what was received before it stands.
pub fn receive_events(
    state: &mut InGameState,
    events: &Vec<NavigationEvent>,
    world: &mut Option<WorldIsland>,
) -> (r: Option<InvalidTransition>)
    ensures
        (Received { time: final(state).time, world_island: *final(world), fault: r })
            == spec_receive(old(state).time, *old(world), events@, events@.len() as int),
{
    let mut i: usize = 0;
    while i < events.len()
        invariant
            i <= events.len(),
            (Received { time: state.time, world_island: *world, fault: None }) == spec_receive(
                old(state).time,
                *old(world),
                events@,
                i as int,
            ),
        decreases events.len() - i,
    {
        if !event_fits(state, &events[i]) {
            proof {
                lemma_fault_stays(
                    old(state).time,
                    *old(world),
                    events@,
                    i as int + 1,
                    events@.len() as int,
                );
            }
            return Some(InvalidTransition { time: state.time, event: events[i] });
        }
        island_enter_leave(state, &events[i], world);
        i += 1;
    }
    None
}

} // verus!
