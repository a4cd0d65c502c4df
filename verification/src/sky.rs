//! The dome of stars, and navigating by it.
//!
//! The world is flat; what makes it round is the sky, which turns against
//! every movement of the boat. Islands are fixed places on the dome. At
//! night an island that has swung overhead is entered; by day the dome is
//! held still while the boat lies near the island and released when it
//! draws away.
use vstd::prelude::*;
use crate::boat::MoveEvent;
use crate::fixed::{
    fx_mul, mul_div, sat_neg, sat_sub, spec_fx_mul, spec_mul_div, spec_sat_neg, spec_sat_sub,
    SCALE,
};
use crate::navigation::{
    spec_event_fits, DayTime, InGameState, Island, NavigationEvent, WorldIsland,
};
use crate::quat::{lemma_normalize_unit, Quat};
use crate::vector::Vec3;
use crate::water::Weather;

verus! {

/// Marks what turns with the dome.
#[derive(Clone, Copy, Debug, PartialEq, Eq, Structural)]
pub struct SkyDomeLayer;

/// Marks what follows the camera as backdrop.
#[derive(Clone, Copy, Debug, PartialEq, Eq, Structural)]
pub struct SkyDomeLayerBg;

/// The dome: how far it has turned, and whether an island holds it.
#[derive(Clone, Copy, Debug, PartialEq, Eq, Structural)]
pub struct SkyDome {
    pub rotation: Quat,
    pub locked_island: bool,
}

/// An island's fixed place on the dome.
#[derive(Clone, Copy, Debug, PartialEq, Eq, Structural)]
pub struct SkyDomeIsland {
    pub id: Island,
    pub rotation: Quat,
}

/// The numbers that shape navigation.
#[derive(Clone, Copy, Debug, PartialEq, Eq, Structural)]
pub struct SkyTuning {
    /// Radians the dome turns for each unit of distance sailed.
    pub sky_scale: i64,
    /// An island is overhead when its height on the dome exceeds this.
    pub enter_alignment: i64,
    /// How far ahead of the boat an entered island rises.
    pub landing_distance: i64,
    /// Beyond this distance the island is left.
    pub leave_threshold: i64,
    /// The approach fraction above which the island holds the dome.
    pub lock_distance: i64,
    /// Radians by which the dome is pushed off the island on release.
    pub unlock_angle: i64,
    /// The approach fraction at which the sky begins to brighten.
    pub value_offset: i64,
    /// How fast the sky brightens with the approach fraction.
    pub value_gain: i64,
    /// The brightest the sky gets.
    pub value_cap: i64,
}

/// What one step of navigation leaves behind.
pub struct SkyStep {
    pub dome: SkyDome,
    pub wave_intensity: i64,
    /// The events of the step, in the order in which they are made.
    pub events: Seq<NavigationEvent>,
}

impl SkyTuning {
    /// The island can be left at some positive distance.
    pub open spec fn wf(self) -> bool {
        self.leave_threshold > 0
    }

    /// What `standard` returns.
    pub open spec fn spec_standard() -> SkyTuning {
        SkyTuning {
            sky_scale: 1_000_000,
            enter_alignment: 990_000_000,
            landing_distance: 5_000_000_000_000,
            leave_threshold: 700_000_000_000,
            lock_distance: 200_000_000,
            unlock_angle: 78_539_816,
            value_offset: 100_000_000,
            value_gain: 10_000_000_000,
            value_cap: 750_000_000,
        }
    }

    /// The tuning the game is played with: a thousandth of a radian per
    /// unit sailed, islands entered at 0.99, risen 5000 ahead, left at 700,
    /// holding the dome above a fraction of 0.2.
    #[verifier::when_used_as_spec(spec_standard)]
    pub fn standard() -> (r: SkyTuning)
        ensures
            r == SkyTuning::spec_standard(),
            r.wf(),
    {
        SkyTuning {
            sky_scale: 1_000_000,
            enter_alignment: 990_000_000,
            landing_distance: 5_000_000_000_000,
            leave_threshold: 700_000_000_000,
            lock_distance: 200_000_000,
            unlock_angle: 78_539_816,
            value_offset: 100_000_000,
            value_gain: 10_000_000_000,
            value_cap: 750_000_000,
        }
    }
}

impl Default for SkyTuning {
    fn default() -> (r: SkyTuning)
        ensures
            r == SkyTuning::spec_standard(),
    {
        SkyTuning::standard()
    }
}

impl SkyDome {
    /// What `new` returns.
    pub open spec fn spec_new() -> SkyDome {
        SkyDome { rotation: Quat::spec_identity(), locked_island: false }
    }

    /// The dome before the boat has moved.
    #[verifier::when_used_as_spec(spec_new)]
    pub fn new() -> (r: SkyDome)
        ensures
            r == SkyDome::spec_new(),
            r.rotation.is_unit(),
    {
        SkyDome { rotation: Quat::identity(), locked_island: false }
    }
}

impl SkyDomeIsland {
    /// What `new` returns.
    pub open spec fn spec_new(id: Island, rotation: Quat) -> SkyDomeIsland {
        SkyDomeIsland { id, rotation }
    }

    /// An island at its place on the dome.
    #[verifier::when_used_as_spec(spec_new)]
    pub fn new(id: Island, rotation: Quat) -> (r: SkyDomeIsland)
        ensures
            r == SkyDomeIsland::spec_new(id, rotation),
    {
        SkyDomeIsland { id, rotation }
    }
}

/// The islands of the sky as the voyage knows them.
pub open spec fn spec_celestial_islands() -> Seq<SkyDomeIsland> {
    seq![
        SkyDomeIsland {
            id: Island::Home,
            rotation: Quat::spec_from_rotation_x(157_079_633).spec_times(
                Quat::spec_from_rotation_y(314_159_265),
            ),
        },
        SkyDomeIsland {
            id: Island::IslandA,
            rotation: Quat::spec_from_rotation_x(-235_619_449i64).spec_times(
                Quat::spec_from_rotation_z(188_495_559),
            ),
        },
    ]
}

/// The islands of the sky: home, a tenth of a quarter turn off the pole,
/// and one other beyond it on the far side.
pub fn celestial_islands() -> (r: Vec<SkyDomeIsland>)
    ensures
        r@ == spec_celestial_islands(),
{
    let mut islands: Vec<SkyDomeIsland> = Vec::new();
    islands.push(
        SkyDomeIsland::new(
            Island::Home,
            Quat::from_rotation_x(157_079_633).times(Quat::from_rotation_y(314_159_265)),
        ),
    );
    islands.push(
        SkyDomeIsland::new(
            Island::IslandA,
            Quat::from_rotation_x(-235_619_449).times(Quat::from_rotation_z(188_495_559)),
        ),
    );
    assert(islands@ =~= spec_celestial_islands());
    islands
}

/// A displacement turned a quarter turn about the vertical: the axis about
/// which the dome turns when the boat moves that way.
pub open spec fn quarter_turned(v: Vec3) -> Vec3 {
    Vec3 { x: v.z, y: v.y, z: spec_sat_neg(v.x) }
}

/// What `jump_skydome` returns.
pub open spec fn spec_jump_skydome(jump: Vec3, sky_scale: i64) -> Quat {
    Quat::spec_from_axis_angle(
        quarter_turned(jump).spec_normalize_or(Vec3::spec_zero()),
        spec_sat_neg(spec_fx_mul(jump.spec_length(), sky_scale)),
    ).spec_normalize()
}

/// The turn of the dome that answers one displacement of the boat: about
/// the displacement turned a quarter turn about the vertical, backwards by
/// its length times `sky_scale`, and scaled to unit length. The result is
/// a unit quaternion; for no displacement it is no turn at all.
#[verifier::when_used_as_spec(spec_jump_skydome)]
pub fn jump_skydome(jump: Vec3, sky_scale: i64) -> (r: Quat)
    ensures
        r == spec_jump_skydome(jump, sky_scale),
        r.is_unit(),
{
    let axis = (Vec3 { x: jump.z, y: jump.y, z: sat_neg(jump.x) }).normalize_or(Vec3::zero());
    Quat::from_axis_angle(axis, sat_neg(fx_mul(jump.length(), sky_scale))).normalize()
}

/// The turn that answers a displacement is a unit quaternion.
pub proof fn lemma_jump_skydome_unit(jump: Vec3, sky_scale: i64)
    ensures
        spec_jump_skydome(jump, sky_scale).is_unit(),
{
    lemma_normalize_unit(
        Quat::spec_from_axis_angle(
            quarter_turned(jump).spec_normalize_or(Vec3::spec_zero()),
            spec_sat_neg(spec_fx_mul(jump.spec_length(), sky_scale)),
        ),
    );
}

/// What `advance` returns.
pub open spec fn spec_advance(sky_rotation: Quat, jump: Vec3, sky_scale: i64) -> Quat {
    spec_jump_skydome(jump, sky_scale).spec_times(sky_rotation).spec_normalize()
}

/// Dead reckoning: the rotation of the dome after the boat has moved by
/// `jump`. The turn is applied in world space, before the rotation so far,
/// and the product is scaled back to unit length, so the result is a unit
/// quaternion whatever went in.
#[verifier::when_used_as_spec(spec_advance)]
pub fn advance(sky_rotation: Quat, jump: Vec3, sky_scale: i64) -> (r: Quat)
    ensures
        r == spec_advance(sky_rotation, jump, sky_scale),
        r.is_unit(),
{
    jump_skydome(jump, sky_scale).times(sky_rotation).normalize()
}

/// Where an island stands in the world's sky once the dome has turned.
pub open spec fn spec_island_direction(sky_rotation: Quat, island_rotation: Quat) -> Vec3 {
    sky_rotation.spec_times(island_rotation).spec_rotate(Vec3::spec_unit_y())
}

/// Where an island stands in the world's sky once the dome has turned.
#[verifier::when_used_as_spec(spec_island_direction)]
pub fn island_direction(sky_rotation: Quat, island_rotation: Quat) -> (r: Vec3)
    ensures
        r == spec_island_direction(sky_rotation, island_rotation),
{
    sky_rotation.times(island_rotation).rotate(Vec3::unit_y())
}

/// An island is overhead when its direction is closer to straight up than
/// the tuning asks.
pub open spec fn is_overhead(sky_rotation: Quat, island: SkyDomeIsland, tuning: SkyTuning) -> bool {
    spec_island_direction(sky_rotation, island.rotation).spec_dot(Vec3::spec_unit_y())
        > tuning.enter_alignment
}

/// Whether an island is overhead, as a property of islands.
pub open spec fn overhead_under(sky_rotation: Quat, tuning: SkyTuning) -> spec_fn(
    SkyDomeIsland,
) -> bool {
    |island: SkyDomeIsland| is_overhead(sky_rotation, island, tuning)
}

/// The islands that stand overhead, in their order.
pub open spec fn overhead_islands(
    sky_rotation: Quat,
    islands: Seq<SkyDomeIsland>,
    tuning: SkyTuning,
) -> Seq<SkyDomeIsland> {
    islands.filter(overhead_under(sky_rotation, tuning))
}

/// The point of the sea near which an entered island rises: ahead of the
/// boat in the island's direction, at sea level.
pub open spec fn landing_point(translation: Vec3, direction: Vec3, tuning: SkyTuning) -> Vec3 {
    let ahead = translation.spec_plus(direction.spec_scale(tuning.landing_distance));
    Vec3 { x: ahead.x, y: 0, z: ahead.z }
}

/// The event that enters `island`.
pub open spec fn enter_event(
    sky_rotation: Quat,
    island: SkyDomeIsland,
    translation: Vec3,
    tuning: SkyTuning,
) -> NavigationEvent {
    NavigationEvent::Enter(
        island.id,
        island.rotation,
        landing_point(
            translation,
            spec_island_direction(sky_rotation, island.rotation),
            tuning,
        ),
    )
}

/// What a night's step reports under the dome as it now stands: every
/// island overhead is entered, in the order of the islands.
pub open spec fn night_events(
    sky_rotation: Quat,
    islands: Seq<SkyDomeIsland>,
    translation: Vec3,
    tuning: SkyTuning,
) -> Seq<NavigationEvent> {
    overhead_islands(sky_rotation, islands, tuning).map_values(
        |island: SkyDomeIsland| enter_event(sky_rotation, island, translation, tuning),
    )
}

/// Without islands nothing is entered.
pub proof fn lemma_night_events_none(sky_rotation: Quat, translation: Vec3, tuning: SkyTuning)
    ensures
        overhead_islands(sky_rotation, Seq::<SkyDomeIsland>::empty(), tuning)
            == Seq::<SkyDomeIsland>::empty(),
        night_events(sky_rotation, Seq::<SkyDomeIsland>::empty(), translation, tuning)
            == Seq::<NavigationEvent>::empty(),
{
    reveal(Seq::filter);
    assert(overhead_islands(sky_rotation, Seq::<SkyDomeIsland>::empty(), tuning)
        =~= Seq::<SkyDomeIsland>::empty());
    assert(night_events(sky_rotation, Seq::<SkyDomeIsland>::empty(), translation, tuning)
        =~= Seq::<NavigationEvent>::empty());
}

/// One more island at the end of the list adds its event at the end of the
/// night's events if it is overhead, and nothing if it is not.
pub proof fn lemma_night_events_push(
    sky_rotation: Quat,
    islands: Seq<SkyDomeIsland>,
    island: SkyDomeIsland,
    translation: Vec3,
    tuning: SkyTuning,
)
    ensures
        overhead_islands(sky_rotation, islands.push(island), tuning) == if is_overhead(
            sky_rotation,
            island,
            tuning,
        ) {
            overhead_islands(sky_rotation, islands, tuning).push(island)
        } else {
            overhead_islands(sky_rotation, islands, tuning)
        },
        night_events(sky_rotation, islands.push(island), translation, tuning) == if is_overhead(
            sky_rotation,
            island,
            tuning,
        ) {
            night_events(sky_rotation, islands, translation, tuning).push(
                enter_event(sky_rotation, island, translation, tuning),
            )
        } else {
            night_events(sky_rotation, islands, translation, tuning)
        },
{
    reveal(Seq::filter);
    assert(islands.push(island).drop_last() =~= islands);
    if is_overhead(sky_rotation, island, tuning) {
        assert(night_events(sky_rotation, islands.push(island), translation, tuning)
            =~= night_events(sky_rotation, islands, translation, tuning).push(
            enter_event(sky_rotation, island, translation, tuning),
        ));
    }
}

/// Every event of the night is the entering of an island overhead: the
/// `k`th event enters the `k`th of the islands overhead, which is one of
/// the islands.
pub proof fn lemma_night_event_enters(
    sky_rotation: Quat,
    islands: Seq<SkyDomeIsland>,
    translation: Vec3,
    tuning: SkyTuning,
    k: int,
)
    requires
        0 <= k < night_events(sky_rotation, islands, translation, tuning).len(),
    ensures
        night_events(sky_rotation, islands, translation, tuning).len() == overhead_islands(
            sky_rotation,
            islands,
            tuning,
        ).len(),
        night_events(sky_rotation, islands, translation, tuning)[k] == enter_event(
            sky_rotation,
            overhead_islands(sky_rotation, islands, tuning)[k],
            translation,
            tuning,
        ),
        is_overhead(sky_rotation, overhead_islands(sky_rotation, islands, tuning)[k], tuning),
        islands.contains(overhead_islands(sky_rotation, islands, tuning)[k]),
{
    let over = overhead_islands(sky_rotation, islands, tuning);
    islands.lemma_filter_pred(overhead_under(sky_rotation, tuning), k);
    assert(over.contains(over[k]));
    islands.lemma_filter_contains_rev(overhead_under(sky_rotation, tuning), over[k]);
}

/// Every island overhead is entered.
pub proof fn lemma_overhead_is_entered(
    sky_rotation: Quat,
    islands: Seq<SkyDomeIsland>,
    translation: Vec3,
    tuning: SkyTuning,
    i: int,
)
    requires
        0 <= i < islands.len(),
        is_overhead(sky_rotation, islands[i], tuning),
    ensures
        night_events(sky_rotation, islands, translation, tuning).contains(
            enter_event(sky_rotation, islands[i], translation, tuning),
        ),
{
    let over = overhead_islands(sky_rotation, islands, tuning);
    let events = night_events(sky_rotation, islands, translation, tuning);
    islands.lemma_filter_contains(overhead_under(sky_rotation, tuning), i);
    let k = choose|k: int| 0 <= k < over.len() && over[k] == islands[i];
    assert(events[k] == enter_event(sky_rotation, islands[i], translation, tuning));
}

/// While no island is overhead nothing is entered.
pub proof fn lemma_none_overhead(
    sky_rotation: Quat,
    islands: Seq<SkyDomeIsland>,
    translation: Vec3,
    tuning: SkyTuning,
)
    requires
        forall|i: int|
            0 <= i < islands.len() ==> !is_overhead(sky_rotation, #[trigger] islands[i], tuning),
    ensures
        night_events(sky_rotation, islands, translation, tuning).len() == 0,
{
    if night_events(sky_rotation, islands, translation, tuning).len() > 0 {
        lemma_night_event_enters(sky_rotation, islands, translation, tuning, 0);
        let first = overhead_islands(sky_rotation, islands, tuning)[0];
        let i = choose|i: int| 0 <= i < islands.len() && islands[i] == first;
        assert(is_overhead(sky_rotation, islands[i], tuning));
    }
}

/// How near the island is: one at the island, zero at the distance where
/// it is left.
pub open spec fn spec_approach_fraction(distance: i64, tuning: SkyTuning) -> i64 {
    spec_sat_sub(SCALE, spec_mul_div(distance, SCALE, tuning.leave_threshold))
}

/// How near the island is: one at the island, zero at the distance where
/// it is left.
#[verifier::when_used_as_spec(spec_approach_fraction)]
pub fn approach_fraction(distance: i64, tuning: SkyTuning) -> (r: i64)
    requires
        tuning.wf(),
    ensures
        r == spec_approach_fraction(distance, tuning),
{
    sat_sub(SCALE, mul_div(distance, SCALE, tuning.leave_threshold))
}

/// The brightness of the sky at an approach fraction: nothing up to the
/// offset, then rising with the gain, up to the cap.
pub open spec fn spec_approach_value(fraction: i64, tuning: SkyTuning) -> i64 {
    let over = spec_sat_sub(fraction, tuning.value_offset);
    let risen = spec_fx_mul(if over > 0 { over } else { 0 }, tuning.value_gain);
    if risen < tuning.value_cap {
        risen
    } else {
        tuning.value_cap
    }
}

/// The brightness of the sky at an approach fraction.
#[verifier::when_used_as_spec(spec_approach_value)]
pub fn approach_value(fraction: i64, tuning: SkyTuning) -> (r: i64)
    ensures
        r == spec_approach_value(fraction, tuning),
{
    let over = sat_sub(fraction, tuning.value_offset);
    let risen = fx_mul(if over > 0 { over } else { 0 }, tuning.value_gain);
    if risen < tuning.value_cap {
        risen
    } else {
        tuning.value_cap
    }
}

/// The dome as the island takes hold of it: the turn that the dome and the
/// island's place make together is undone.
pub open spec fn spec_snapped(sky_rotation: Quat, island_rotation: Quat) -> Quat {
    sky_rotation.spec_times(island_rotation).spec_conjugate().spec_times(
        sky_rotation,
    ).spec_normalize()
}

/// The dome as the island takes hold of it. The result is a unit
/// quaternion.
#[verifier::when_used_as_spec(spec_snapped)]
pub fn snapped(sky_rotation: Quat, island_rotation: Quat) -> (r: Quat)
    ensures
        r == spec_snapped(sky_rotation, island_rotation),
        r.is_unit(),
{
    sky_rotation.times(island_rotation).conjugate().times(sky_rotation).normalize()
}

/// The dome as the island lets go of it: pushed by the unlock angle about
/// the horizontal axis square to the line from island to boat.
pub open spec fn spec_released(
    sky_rotation: Quat,
    translation: Vec3,
    island_translation: Vec3,
    tuning: SkyTuning,
) -> Quat {
    let from = Vec3 { x: translation.x, y: 0, z: translation.z };
    let to = Vec3 { x: island_translation.x, y: 0, z: island_translation.z };
    let away = from.spec_minus(to).spec_normalize_or(Vec3::spec_zero());
    Quat::spec_from_axis_angle(
        quarter_turned(away),
        spec_sat_neg(tuning.unlock_angle),
    ).spec_normalize().spec_times(sky_rotation).spec_normalize()
}

/// The dome as the island lets go of it. The result is a unit quaternion.
#[verifier::when_used_as_spec(spec_released)]
pub fn released(
    sky_rotation: Quat,
    translation: Vec3,
    island_translation: Vec3,
    tuning: SkyTuning,
) -> (r: Quat)
    ensures
        r == spec_released(sky_rotation, translation, island_translation, tuning),
        r.is_unit(),
{
    let from = Vec3 { x: translation.x, y: 0, z: translation.z };
    let to = Vec3 { x: island_translation.x, y: 0, z: island_translation.z };
    let away = from.minus(to).normalize_or(Vec3::zero());
    let axis = Vec3 { x: away.z, y: away.y, z: sat_neg(away.x) };
    Quat::from_axis_angle(axis, sat_neg(tuning.unlock_angle)).normalize().times(
        sky_rotation,
    ).normalize()
}

/// The dome after a day's step at an approach fraction.
///
/// Above the lock distance a free dome is snapped and held; below it a held
/// dome is released and a free one goes on by dead reckoning; otherwise it
/// rests.
pub open spec fn day_dome(
    dome: SkyDome,
    ev: MoveEvent,
    island: WorldIsland,
    fraction: i64,
    tuning: SkyTuning,
) -> SkyDome {
    if fraction > tuning.lock_distance && !dome.locked_island {
        SkyDome { rotation: spec_snapped(dome.rotation, island.sky_rotation), locked_island: true }
    } else if fraction < tuning.lock_distance {
        if dome.locked_island {
            SkyDome {
                rotation: spec_released(dome.rotation, ev.translation, island.translation, tuning),
                locked_island: false,
            }
        } else {
            SkyDome {
                rotation: spec_advance(dome.rotation, ev.jump, tuning.sky_scale),
                locked_island: false,
            }
        }
    } else {
        dome
    }
}

/// One step of navigation, as a function of everything it reads.
pub open spec fn spec_skydome_system(
    ev: MoveEvent,
    time: DayTime,
    dome: SkyDome,
    islands: Seq<SkyDomeIsland>,
    world_island: Option<WorldIsland>,
    wave_intensity: i64,
    tuning: SkyTuning,
) -> SkyStep {
    match time {
        DayTime::Night => {
            let rotation = spec_advance(dome.rotation, ev.jump, tuning.sky_scale);
            SkyStep {
                dome: SkyDome { rotation, locked_island: dome.locked_island },
                wave_intensity,
                events: night_events(rotation, islands, ev.translation, tuning),
            }
        },
        DayTime::Day => match world_island {
            None => SkyStep { dome, wave_intensity, events: Seq::empty() },
            Some(island) => {
                let distance = ev.translation.spec_distance(island.translation);
                if distance > tuning.leave_threshold {
                    SkyStep { dome, wave_intensity, events: seq![NavigationEvent::Leave] }
                } else {
                    let fraction = spec_approach_fraction(distance, tuning);
                    SkyStep {
                        dome: day_dome(dome, ev, island, fraction, tuning),
                        wave_intensity: spec_sat_sub(SCALE, spec_approach_value(fraction, tuning)),
                        events: seq![NavigationEvent::Approach(fraction)],
                    }
                }
            },
        },
    }
}

/// Enters every island that stands overhead, in the order of the islands.
fn enter_overhead(
    sky_rotation: Quat,
    islands: &Vec<SkyDomeIsland>,
    translation: Vec3,
    tuning: &SkyTuning,
) -> (r: Vec<NavigationEvent>)
    ensures
        r@ == night_events(sky_rotation, islands@, translation, *tuning),
{
    let mut events: Vec<NavigationEvent> = Vec::new();
    proof {
        lemma_night_events_none(sky_rotation, translation, *tuning);
        assert(islands@.take(0) =~= Seq::<SkyDomeIsland>::empty());
    }
    let mut i: usize = 0;
    while i < islands.len()
        invariant
            i <= islands.len(),
            events@ == night_events(sky_rotation, islands@.take(i as int), translation, *tuning),
        decreases islands.len() - i,
    {
        let island = islands[i];
        let direction = island_direction(sky_rotation, island.rotation);
        proof {
            lemma_night_events_push(
                sky_rotation,
                islands@.take(i as int),
                island,
                translation,
                *tuning,
            );
            assert(islands@.take(i as int).push(island) =~= islands@.take(i as int + 1));
        }
        if direction.dot(Vec3::unit_y()) > tuning.enter_alignment {
            let ahead = translation.plus(direction.scale(tuning.landing_distance));
            events.push(
                NavigationEvent::Enter(
                    island.id,
                    island.rotation,
                    Vec3 { x: ahead.x, y: 0, z: ahead.z },
                ),
            );
        }
        i += 1;
    }
    proof {
        assert(islands@.take(islands.len() as int) =~= islands@);
    }
    events
}

/// One step of navigation, taken when the boat has moved.
///
/// At night the dome turns by dead reckoning, and every island that then
/// stands overhead is entered, in the order of the islands. By day, with an
/// island in the water, the boat leaves it beyond the leave threshold and
/// approaches it otherwise; an approach calms the sea with the brightening
/// sky and holds, releases or turns the dome as `day_dome` says. By day
/// there is at most one event. Every event fits the mode it was made in,
/// and an approach is by a fraction between nothing and one. The dome's
/// rotation stays a unit quaternion.
pub fn skydome_system(
    ev: &MoveEvent,
    state: &InGameState,
    skydome: &mut SkyDome,
    islands: &Vec<SkyDomeIsland>,
    world_island: Option<WorldIsland>,
    weather: &mut Weather,
    tuning: &SkyTuning,
) -> (r: Vec<NavigationEvent>)
    requires
        tuning.wf(),
    ensures
        *final(skydome) == spec_skydome_system(
            *ev,
            state.time,
            *old(skydome),
            islands@,
            world_island,
            old(weather).wave_intensity,
            *tuning,
        ).dome,
        final(weather).wave_intensity == spec_skydome_system(
            *ev,
            state.time,
            *old(skydome),
            islands@,
            world_island,
            old(weather).wave_intensity,
            *tuning,
        ).wave_intensity,
        r@ == spec_skydome_system(
            *ev,
            state.time,
            *old(skydome),
            islands@,
            world_island,
            old(weather).wave_intensity,
            *tuning,
        ).events,
        old(skydome).rotation.is_unit() ==> final(skydome).rotation.is_unit(),
        state.time == DayTime::Day ==> r@.len() <= 1,
        forall|k: int| 0 <= k < r@.len() ==> spec_event_fits(state.time, #[trigger] r@[k]),
        forall|k: int|
            0 <= k < r@.len() ==> (#[trigger] r@[k] matches NavigationEvent::Approach(fraction)
                ==> 0 <= fraction <= SCALE),
{
    match state.time {
        DayTime::Night => {
            skydome.rotation = advance(skydome.rotation, ev.jump, tuning.sky_scale);
            let events = enter_overhead(skydome.rotation, islands, ev.translation, tuning);
            proof {
                assert forall|k: int| 0 <= k < events@.len() implies spec_event_fits(
                    state.time,
                    #[trigger] events@[k],
                ) && !(events@[k] is Approach) by {
                    lemma_night_event_enters(
                        skydome.rotation,
                        islands@,
                        ev.translation,
                        *tuning,
                        k,
                    );
                }
            }
            events
        },
        DayTime::Day => {
            let mut events: Vec<NavigationEvent> = Vec::new();
            match world_island {
                None => {
                    assert(events@ =~= Seq::<NavigationEvent>::empty());
                },
                Some(island) => {
                    let distance = ev.translation.distance(island.translation);
                    if distance > tuning.leave_threshold {
                        events.push(NavigationEvent::Leave);
                        assert(events@ =~= seq![NavigationEvent::Leave]);
                    } else {
                        proof {
                            lemma_fraction_range(distance, *tuning);
                        }
                        let fraction = approach_fraction(distance, *tuning);
                        weather.wave_intensity = sat_sub(SCALE, approach_value(fraction, *tuning));
                        if fraction > tuning.lock_distance && !skydome.locked_island {
                            skydome.rotation = snapped(skydome.rotation, island.sky_rotation);
                            skydome.locked_island = true;
                        } else if fraction < tuning.lock_distance {
                            if skydome.locked_island {
                                skydome.rotation = released(
                                    skydome.rotation,
                                    ev.translation,
                                    island.translation,
                                    *tuning,
                                );
                                skydome.locked_island = false;
                            } else {
                                skydome.rotation = advance(
                                    skydome.rotation,
                                    ev.jump,
                                    tuning.sky_scale,
                                );
                            }
                        }
                        events.push(NavigationEvent::Approach(fraction));
                        assert(events@ =~= seq![NavigationEvent::Approach(fraction)]);
                    }
                },
            }
            events
        },
    }
}

/// Dead reckoning keeps the dome a unit quaternion, whatever it was and
/// however the boat moved.
pub proof fn lemma_advance_unit(sky_rotation: Quat, jump: Vec3, sky_scale: i64)
    ensures
        spec_advance(sky_rotation, jump, sky_scale).is_unit(),
{
    lemma_normalize_unit(spec_jump_skydome(jump, sky_scale).spec_times(sky_rotation));
}

/// A unit dome stays a unit dome through every step of navigation.
pub proof fn lemma_dome_stays_unit(
    ev: MoveEvent,
    time: DayTime,
    dome: SkyDome,
    islands: Seq<SkyDomeIsland>,
    world_island: Option<WorldIsland>,
    wave_intensity: i64,
    tuning: SkyTuning,
)
    requires
        dome.rotation.is_unit(),
    ensures
        spec_skydome_system(
            ev,
            time,
            dome,
            islands,
            world_island,
            wave_intensity,
            tuning,
        ).dome.rotation.is_unit(),
{
    lemma_advance_unit(dome.rotation, ev.jump, tuning.sky_scale);
    if let Some(island) = world_island {
        lemma_normalize_unit(
            dome.rotation.spec_times(island.sky_rotation).spec_conjugate().spec_times(
                dome.rotation,
            ),
        );
        let from = Vec3 { x: ev.translation.x, y: 0, z: ev.translation.z };
        let to = Vec3 { x: island.translation.x, y: 0, z: island.translation.z };
        let away = from.spec_minus(to).spec_normalize_or(Vec3::spec_zero());
        lemma_normalize_unit(
            Quat::spec_from_axis_angle(
                quarter_turned(away),
                spec_sat_neg(tuning.unlock_angle),
            ).spec_normalize().spec_times(dome.rotation),
        );
    }
}

/// At the island the approach fraction is one; at the leave threshold it
/// is zero.
pub proof fn lemma_fraction_ends(tuning: SkyTuning)
    requires
        tuning.wf(),
    ensures
        spec_approach_fraction(0, tuning) == SCALE,
        spec_approach_fraction(tuning.leave_threshold, tuning) == 0,
{
    let d = tuning.leave_threshold as int;
    assert(0 * SCALE == 0);
    assert(0int / d == 0) by (nonlinear_arith)
        requires
            d > 0,
    ;
    assert((d * SCALE) / d == SCALE) by (nonlinear_arith)
        requires
            d > 0,
    ;
}

/// Within reach of the island the approach fraction lies between nothing
/// and one.
pub proof fn lemma_fraction_range(distance: i64, tuning: SkyTuning)
    requires
        tuning.wf(),
        0 <= distance <= tuning.leave_threshold,
    ensures
        0 <= spec_approach_fraction(distance, tuning) <= SCALE,
{
    let t = tuning.leave_threshold as int;
    let p = distance * SCALE;
    assert(0 <= p <= t * SCALE) by (nonlinear_arith)
        requires
            p == distance * SCALE,
            0 <= distance <= t,
    ;
    assert(0 <= p / t <= SCALE) by (nonlinear_arith)
        requires
            0 <= p <= t * SCALE,
            t > 0,
    ;
}

/// By day the island is left exactly beyond the leave threshold, and
/// approached at every distance up to it, with the fraction of that
/// distance.
pub proof fn lemma_leave_beyond_threshold(
    ev: MoveEvent,
    dome: SkyDome,
    islands: Seq<SkyDomeIsland>,
    island: WorldIsland,
    wave_intensity: i64,
    tuning: SkyTuning,
)
    ensures
        ({
            let step = spec_skydome_system(
                ev,
                DayTime::Day,
                dome,
                islands,
                Some(island),
                wave_intensity,
                tuning,
            );
            let distance = ev.translation.spec_distance(island.translation);
            &&& step.events.len() == 1
            &&& distance > tuning.leave_threshold <==> step.events[0] == NavigationEvent::Leave
            &&& distance <= tuning.leave_threshold <==> step.events[0]
                == NavigationEvent::Approach(spec_approach_fraction(distance, tuning))
        }),
{
}

/// A dome that an island holds rests: while the approach fraction is not
/// under the lock distance, a day's step leaves its rotation as it was and
/// leaves it held. Only under the lock distance is it released.
pub proof fn lemma_held_dome_rests(
    dome: SkyDome,
    ev: MoveEvent,
    island: WorldIsland,
    fraction: i64,
    tuning: SkyTuning,
)
    requires
        dome.locked_island,
    ensures
        fraction >= tuning.lock_distance ==> day_dome(dome, ev, island, fraction, tuning) == dome,
        fraction < tuning.lock_distance ==> day_dome(dome, ev, island, fraction, tuning) == (SkyDome {
            rotation: spec_released(dome.rotation, ev.translation, island.translation, tuning),
            locked_island: false,
        }),
{
}

/// By day the dome turns by dead reckoning only while no island holds it
/// and the approach fraction is under the lock distance; above the lock
/// distance a free dome is taken hold of.
pub proof fn lemma_free_dome(
    dome: SkyDome,
    ev: MoveEvent,
    island: WorldIsland,
    fraction: i64,
    tuning: SkyTuning,
)
    requires
        !dome.locked_island,
    ensures
        fraction > tuning.lock_distance ==> day_dome(dome, ev, island, fraction, tuning).locked_island,
        fraction < tuning.lock_distance ==> day_dome(dome, ev, island, fraction, tuning) == (SkyDome {
            rotation: spec_advance(dome.rotation, ev.jump, tuning.sky_scale),
            locked_island: false,
        }),
        fraction == tuning.lock_distance ==> day_dome(dome, ev, island, fraction, tuning) == dome,
{
}

} // verus!
