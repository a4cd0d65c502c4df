//! The boat: how throttle and rudder move it over the sea.
//!
//! One step turns the heading, pushes the boat along it against drag and
//! friction, moves it, and sets it on the waves at its new place.
use vstd::prelude::*;
use crate::fixed::{
    fx_mul, is_isqrt, lemma_isqrt_at_least, lemma_isqrt_exists, lemma_isqrt_is, mul_div, sat_add,
    sat_neg, sat_sub, saturate, spec_fx_mul, spec_mul_div, spec_sat_add, spec_sat_neg,
    spec_sat_sub, SCALE,
};
use crate::unit::{abs_int, lemma_mul_div_magnitude};
use crate::quat::{Quat, Transform};
use crate::vector::{Vec2, Vec3};
use crate::water::{spec_surface_quat, surface_quat, Water, WaveData};

verus! {

/// An eighth of a turn in radians: how far the paddle swings at full rudder.
pub const FRAC_PI_4: i64 = 785_398_163;

/// The boat that the player steers.
#[derive(Clone, Copy, Debug, PartialEq, Eq)]
pub struct PlayerBoat {
    /// How hard the engine pushes, from full astern at minus one to full
    /// ahead at one.
    pub throttle: i64,
    /// The rudder, from minus one to one; positive turns right.
    pub steer: i64,
    pub velocity: Vec3,
    /// The length of the velocity after the last step.
    pub speed: i64,
    /// The heading, in radians about the vertical.
    pub world_rotation: i64,
    pub last_normal: Quat,
    pub nose_angle: i64,
    pub airborne: Option<(Vec3, i64, i64)>,
    pub exhaust_last: i64,
}

/// Marks the paddle at the stern.
#[derive(Clone, Copy, Debug, PartialEq, Eq, Structural)]
pub struct BoatJet;

/// A puff of spray behind the boat.
#[derive(Clone, Copy, Debug, PartialEq, Eq, Structural)]
pub struct BoatExhaustParticle {
    pub free: bool,
}

/// One tick's movement of the boat.
#[derive(Clone, Copy, Debug, PartialEq, Eq, Structural)]
pub struct MoveEvent {
    /// The displacement of this tick.
    pub jump: Vec3,
    /// Where the boat now is.
    pub translation: Vec3,
}

/// The numbers that shape the boat's motion.
#[derive(Clone, Copy, Debug, PartialEq, Eq, Structural)]
pub struct BoatTuning {
    /// Drag per unit of velocity and speed.
    pub drag: i64,
    /// Friction per unit of velocity.
    pub friction: i64,
    /// The push of the engine at full throttle.
    pub engine_force: i64,
    pub mass: i64,
    /// How fast the hull follows the surface, per second.
    pub rotation_damping: i64,
    /// The speed at which the boat would lift off the water altogether.
    pub takeoff_speed: i64,
    /// The height to which it would lift.
    pub takeoff_height: i64,
    /// How much of the lift is applied; zero keeps the boat on the water.
    pub takeoff_gain: i64,
}

impl BoatTuning {
    /// Mass and takeoff speed are positive.
    pub open spec fn wf(self) -> bool {
        self.mass > 0 && self.takeoff_speed > 0
    }

    /// What `standard` returns.
    pub open spec fn spec_standard() -> BoatTuning {
        BoatTuning {
            drag: 200_000_000,
            friction: 2_000_000_000,
            engine_force: 2_000_000_000_000,
            mass: 20_000_000_000,
            rotation_damping: 2_000_000_000,
            takeoff_speed: 50_000_000_000,
            takeoff_height: 5_000_000_000,
            takeoff_gain: 0,
        }
    }

    /// The tuning the game is played with: an engine of 2000 on a mass of
    /// 20, against a drag of 0.2 and a friction of 2, with no lift.
    #[verifier::when_used_as_spec(spec_standard)]
    pub fn standard() -> (r: BoatTuning)
        ensures
            r == BoatTuning::spec_standard(),
            r.wf(),
    {
        BoatTuning {
            drag: 200_000_000,
            friction: 2_000_000_000,
            engine_force: 2_000_000_000_000,
            mass: 20_000_000_000,
            rotation_damping: 2_000_000_000,
            takeoff_speed: 50_000_000_000,
            takeoff_height: 5_000_000_000,
            takeoff_gain: 0,
        }
    }
}

impl Default for BoatTuning {
    fn default() -> (r: BoatTuning)
        ensures
            r == BoatTuning::spec_standard(),
    {
        BoatTuning::standard()
    }
}

impl PlayerBoat {
    /// What `new` returns.
    pub open spec fn spec_new() -> PlayerBoat {
        PlayerBoat {
            throttle: 0,
            steer: 0,
            velocity: Vec3::spec_zero(),
            speed: 0,
            world_rotation: 0,
            last_normal: Quat::spec_identity(),
            nose_angle: 0,
            airborne: None,
            exhaust_last: 0,
        }
    }

    /// A boat at rest, heading along z.
    #[verifier::when_used_as_spec(spec_new)]
    pub fn new() -> (r: PlayerBoat)
        ensures
            r == PlayerBoat::spec_new(),
    {
        PlayerBoat {
            throttle: 0,
            steer: 0,
            velocity: Vec3::zero(),
            speed: 0,
            world_rotation: 0,
            last_normal: Quat::identity(),
            nose_angle: 0,
            airborne: None,
            exhaust_last: 0,
        }
    }

    /// The heading after `dt` seconds at the present rudder.
    pub open spec fn heading_after(self, dt: i64) -> i64 {
        spec_sat_sub(self.world_rotation, spec_fx_mul(self.steer, dt))
    }

    /// The force on the boat at a heading: the engine's push along the
    /// heading, less drag, which grows with the square of the speed, and
    /// friction, which grows with the speed.
    pub open spec fn force(self, heading: i64, tuning: BoatTuning) -> Vec3 {
        let propulsion = spec_forward(heading).spec_scale(tuning.engine_force).spec_scale(
            self.throttle,
        );
        let drag = self.velocity.spec_scale(spec_fx_mul(spec_sat_neg(tuning.drag), self.speed));
        let friction = self.velocity.spec_scale(spec_sat_neg(tuning.friction));
        propulsion.spec_plus(drag).spec_plus(friction)
    }

    /// The velocity after `dt` seconds.
    pub open spec fn velocity_after(self, dt: i64, tuning: BoatTuning) -> Vec3 {
        let acceleration = self.force(self.heading_after(dt), tuning).spec_divided_by(tuning.mass);
        self.velocity.spec_plus(acceleration.spec_scale(dt))
    }

    /// The displacement of a step of `dt` seconds.
    pub open spec fn jump(self, dt: i64, tuning: BoatTuning) -> Vec3 {
        self.velocity_after(dt, tuning).spec_scale(dt)
    }

    /// The boat after a step of `dt` seconds: heading, velocity and speed
    /// move on, all else stays.
    pub open spec fn stepped(self, dt: i64, tuning: BoatTuning) -> PlayerBoat {
        PlayerBoat {
            velocity: self.velocity_after(dt, tuning),
            speed: self.velocity_after(dt, tuning).spec_length(),
            world_rotation: self.heading_after(dt),
            ..self
        }
    }
}

/// The direction in which a boat of this heading points: z turned about the
/// vertical.
pub open spec fn spec_forward(heading: i64) -> Vec3 {
    Quat::spec_from_rotation_y(heading).spec_rotate(Vec3::spec_unit_z())
}

/// What `paddle_rotation` returns.
pub open spec fn spec_paddle_rotation(steer: i64) -> Quat {
    Quat::spec_from_rotation_y(spec_fx_mul(FRAC_PI_4, steer))
}

/// How the paddle stands at a rudder: an eighth of a turn at full rudder.
#[verifier::when_used_as_spec(spec_paddle_rotation)]
pub fn paddle_rotation(steer: i64) -> (r: Quat)
    ensures
        r == spec_paddle_rotation(steer),
        r.is_unit(),
{
    Quat::from_rotation_y(fx_mul(FRAC_PI_4, steer))
}

/// The share of the lift that a speed earns: the speed against the takeoff
/// speed, held between nothing and the full gain.
pub open spec fn spec_takeoff(speed: i64, tuning: BoatTuning) -> i64 {
    let share = spec_mul_div(speed, SCALE, tuning.takeoff_speed);
    let held = if share < 0 {
        0
    } else if share > SCALE {
        SCALE
    } else {
        share
    };
    spec_fx_mul(held, tuning.takeoff_gain)
}

/// The height at which the boat rides: the wave's height, blended toward
/// the takeoff height by the share of lift.
pub open spec fn spec_ride_height(wave_height: i64, speed: i64, tuning: BoatTuning) -> i64 {
    let lift = spec_takeoff(speed, tuning);
    spec_sat_add(
        spec_fx_mul(wave_height, spec_sat_sub(SCALE, lift)),
        spec_fx_mul(lift, tuning.takeoff_height),
    )
}

/// The height at which the boat rides on a wave of the given height.
#[verifier::when_used_as_spec(spec_ride_height)]
pub fn ride_height(wave_height: i64, speed: i64, tuning: BoatTuning) -> (r: i64)
    requires
        tuning.wf(),
    ensures
        r == spec_ride_height(wave_height, speed, tuning),
{
    let share = mul_div(speed, SCALE, tuning.takeoff_speed);
    let held = if share < 0 {
        0
    } else if share > SCALE {
        SCALE
    } else {
        share
    };
    let lift = fx_mul(held, tuning.takeoff_gain);
    sat_add(fx_mul(wave_height, sat_sub(SCALE, lift)), fx_mul(lift, tuning.takeoff_height))
}

/// The surface under the boat once it has moved to `translation`.
pub open spec fn sample_under(water: Water, translation: Vec3, seconds: i64) -> WaveData {
    water.spec_wave_data_at_point(
        Vec2 { x: translation.x, y: translation.z },
        spec_fx_mul(seconds, water.wave_speed),
    )
}

/// Where the boat stands and how it lies after a step.
///
/// It moves by the jump. On water it rides at the height of the surface
/// under its new place, and its hull turns toward lying on that surface
/// with its heading, by the share of the way that the damping gives the
/// step. Without water it only moves.
pub open spec fn spec_transform_after(
    boat: PlayerBoat,
    transform: Transform,
    dt: i64,
    seconds: i64,
    water: Option<Water>,
    tuning: BoatTuning,
) -> Transform {
    let moved = transform.translation.spec_plus(boat.jump(dt, tuning));
    match water {
        None => Transform { translation: moved, rotation: transform.rotation },
        Some(sea) => {
            let sample = sample_under(sea, moved, seconds);
            Transform {
                translation: Vec3 {
                    x: moved.x,
                    y: spec_ride_height(
                        sample.position.y,
                        boat.velocity_after(dt, tuning).spec_length(),
                        tuning,
                    ),
                    z: moved.z,
                },
                rotation: transform.rotation.spec_slerp(
                    spec_surface_quat(sample.normal).spec_times(
                        Quat::spec_from_rotation_y(boat.heading_after(dt)),
                    ),
                    spec_fx_mul(dt, tuning.rotation_damping),
                ),
            }
        },
    }
}

/// What a step reports: the jump and the new place, if the boat moved.
pub open spec fn spec_move_event(
    boat: PlayerBoat,
    transform: Transform,
    dt: i64,
    seconds: i64,
    water: Option<Water>,
    tuning: BoatTuning,
) -> Option<MoveEvent> {
    let jump = boat.jump(dt, tuning);
    if jump.spec_length() > 0 {
        Some(
            MoveEvent {
                jump,
                translation: spec_transform_after(
                    boat,
                    transform,
                    dt,
                    seconds,
                    water,
                    tuning,
                ).translation,
            },
        )
    } else {
        None
    }
}

/// Moves the boat through one step of `dt` seconds at the clock time
/// `seconds`.
///
/// The heading turns against the rudder; the force at the new heading
/// changes the velocity; the boat moves by the velocity and is set on the
/// water. A move event is made exactly when the jump is not zero. On water
/// the hull's rotation comes out a unit quaternion.
pub fn boat_physics_system(
    dt: i64,
    seconds: i64,
    boat: &mut PlayerBoat,
    boat_transform: &mut Transform,
    water: Option<Water>,
    tuning: &BoatTuning,
) -> (r: Option<MoveEvent>)
    requires
        tuning.wf(),
        water matches Some(sea) ==> sea.wf(),
    ensures
        *final(boat) == old(boat).stepped(dt, *tuning),
        *final(boat_transform) == spec_transform_after(
            *old(boat),
            *old(boat_transform),
            dt,
            seconds,
            water,
            *tuning,
        ),
        r == spec_move_event(*old(boat), *old(boat_transform), dt, seconds, water, *tuning),
        r is Some <==> !(old(boat).jump(dt, *tuning) == Vec3::spec_zero()),
        water is Some ==> final(boat_transform).rotation.is_unit(),
{
    boat.world_rotation = sat_sub(boat.world_rotation, fx_mul(boat.steer, dt));
    let world_rotation_quat = Quat::from_rotation_y(boat.world_rotation);

    let propulsion = world_rotation_quat.rotate(Vec3::unit_z()).scale(tuning.engine_force).scale(
        boat.throttle,
    );
    let drag = boat.velocity.scale(fx_mul(sat_neg(tuning.drag), boat.speed));
    let friction = boat.velocity.scale(sat_neg(tuning.friction));

    let sum_force = propulsion.plus(drag).plus(friction);
    let acceleration = sum_force.divided_by(tuning.mass);
    boat.velocity = boat.velocity.plus(acceleration.scale(dt));
    boat.speed = boat.velocity.length();

    let jump = boat.velocity.scale(dt);
    let mut new_translation = boat_transform.translation.plus(jump);

    match water {
        Some(sea) => {
            let wavedata = sea.wave_data_at_point(
                Vec2 { x: new_translation.x, y: new_translation.z },
                fx_mul(seconds, sea.wave_speed),
            );
            new_translation.y = ride_height(wavedata.position.y, boat.speed, *tuning);
            let normal_quat = surface_quat(&wavedata);
            boat_transform.rotation = boat_transform.rotation.slerp(
                normal_quat.times(world_rotation_quat),
                fx_mul(dt, tuning.rotation_damping),
            );
        },
        None => {},
    }
    boat_transform.translation = new_translation;

    if jump.length() > 0 {
        Some(MoveEvent { jump, translation: boat_transform.translation })
    } else {
        None
    }
}

/// A boat that lies still with its engine off stays where it is, and
/// reports no movement.
pub proof fn lemma_boat_at_rest(
    boat: PlayerBoat,
    transform: Transform,
    dt: i64,
    seconds: i64,
    water: Option<Water>,
    tuning: BoatTuning,
)
    requires
        tuning.wf(),
        boat.throttle == 0,
        boat.velocity == Vec3::spec_zero(),
    ensures
        boat.stepped(dt, tuning).velocity == Vec3::spec_zero(),
        boat.stepped(dt, tuning).speed == 0,
        boat.jump(dt, tuning) == Vec3::spec_zero(),
        spec_move_event(boat, transform, dt, seconds, water, tuning) is None,
{
    let heading = boat.heading_after(dt);
    let pushed = spec_forward(heading).spec_scale(tuning.engine_force);
    lemma_times_nothing(pushed.x);
    lemma_times_nothing(pushed.y);
    lemma_times_nothing(pushed.z);
    let slowing = spec_fx_mul(spec_sat_neg(tuning.drag), boat.speed);
    lemma_nothing_times(slowing);
    lemma_nothing_times(spec_sat_neg(tuning.friction));
    assert(boat.force(heading, tuning) == Vec3::spec_zero());
    let m = tuning.mass as int;
    assert((0 * SCALE) / m == 0) by (nonlinear_arith)
        requires
            m > 0,
    ;
    lemma_nothing_times(dt);
    assert(boat.velocity_after(dt, tuning) == Vec3::spec_zero());
    assert(0 * 0 + 0 * 0 + 0 * 0 + 0 * 0 == 0) by (nonlinear_arith);
    assert(is_isqrt(0, 0)) by (nonlinear_arith);
    lemma_isqrt_is(0, 0);
}

/// No closer to zero than `after`, and on the same side of it.
pub open spec fn is_slowed(before: i64, after: i64) -> bool {
    (before >= 0 ==> 0 <= after <= before) && (before <= 0 ==> before <= after <= 0)
}

/// The step is short enough for drag and friction: what they take off the
/// velocity in the step is no more than the velocity itself.
pub open spec fn is_short_step(boat: PlayerBoat, dt: i64, tuning: BoatTuning) -> bool {
    &&& dt >= 0
    &&& tuning.drag >= 0 && tuning.friction >= 0 && boat.speed >= 0
    &&& (abs_int(spec_fx_mul(spec_sat_neg(tuning.drag), boat.speed) as int) + tuning.friction) * dt
        <= SCALE * tuning.mass
}

/// One component of the velocity under drag and friction alone: it comes
/// no closer to zero than nothing and never passes it.
proof fn lemma_component_slows(v: i64, slowing: i64, friction: i64, mass: i64, dt: i64)
    requires
        slowing <= 0,
        friction >= 0,
        mass > 0,
        dt >= 0,
        (abs_int(slowing as int) + friction) * dt <= SCALE * mass,
    ensures
        is_slowed(
            v,
            spec_sat_add(
                v,
                spec_fx_mul(
                    spec_mul_div(
                        spec_sat_add(
                            spec_sat_add(0, spec_fx_mul(v, slowing)),
                            spec_fx_mul(v, spec_sat_neg(friction)),
                        ),
                        SCALE,
                        mass,
                    ),
                    dt,
                ),
            ),
        ),
{
    let drag_x = spec_fx_mul(v, slowing);
    let fric_x = spec_fx_mul(v, spec_sat_neg(friction));
    let force = spec_sat_add(spec_sat_add(0, drag_x), fric_x);
    let acc = spec_mul_div(force, SCALE, mass);
    let dv = spec_fx_mul(acc, dt);
    lemma_mul_div_magnitude(v, slowing, SCALE);
    lemma_mul_div_magnitude(v, spec_sat_neg(friction), SCALE);
    lemma_mul_div_magnitude(force, SCALE, mass);
    lemma_mul_div_magnitude(acc, dt, SCALE);
    let m = abs_int(v as int);
    let k = abs_int(slowing as int);
    let d = abs_int(drag_x as int);
    let f = abs_int(fric_x as int);
    let fo = abs_int(force as int);
    let a = abs_int(acc as int);
    let e = abs_int(dv as int);
    let s = SCALE as int;
    assert(abs_int(spec_sat_neg(friction) as int) == friction);
    assert(fo <= d + f);
    // (d + f) * s <= m * (k + friction)
    assert((d + f) * s <= m * (k + friction)) by (nonlinear_arith)
        requires
            d * s <= m * k,
            f * s <= m * friction,
    ;
    // a * mass <= fo * s
    assert(a * mass <= m * (k + friction)) by (nonlinear_arith)
        requires
            a * mass <= fo * s,
            0 <= fo <= d + f,
            (d + f) * s <= m * (k + friction),
            s > 0,
    ;
    // e * s <= a * dt
    assert(e * s * mass <= m * (s * mass)) by (nonlinear_arith)
        requires
            e * s <= a * dt,
            a * mass <= m * (k + friction),
            (k + friction) * dt <= s * mass,
            mass > 0,
            dt >= 0,
            m >= 0,
            a >= 0,
            k + friction >= 0,
    ;
    assert(e <= m) by (nonlinear_arith)
        requires
            e * s * mass <= m * (s * mass),
            s > 0,
            mass > 0,
    ;
}

/// Drag and friction never speed the boat up: with the engine off and over
/// a step that is short enough, every component of the velocity comes
/// closer to zero without passing it, and the boat is no faster after the
/// step than before.
pub proof fn lemma_drag_slows(boat: PlayerBoat, dt: i64, tuning: BoatTuning)
    requires
        tuning.wf(),
        boat.throttle == 0,
        is_short_step(boat, dt, tuning),
    ensures
        is_slowed(boat.velocity.x, boat.velocity_after(dt, tuning).x),
        is_slowed(boat.velocity.y, boat.velocity_after(dt, tuning).y),
        is_slowed(boat.velocity.z, boat.velocity_after(dt, tuning).z),
        boat.velocity_after(dt, tuning).spec_length() <= boat.velocity.spec_length(),
{
    let heading = boat.heading_after(dt);
    let pushed = spec_forward(heading).spec_scale(tuning.engine_force);
    lemma_times_nothing(pushed.x);
    lemma_times_nothing(pushed.y);
    lemma_times_nothing(pushed.z);
    let slowing = spec_fx_mul(spec_sat_neg(tuning.drag), boat.speed);
    lemma_mul_div_magnitude(spec_sat_neg(tuning.drag), boat.speed, SCALE);
    lemma_component_slows(boat.velocity.x, slowing, tuning.friction, tuning.mass, dt);
    lemma_component_slows(boat.velocity.y, slowing, tuning.friction, tuning.mass, dt);
    lemma_component_slows(boat.velocity.z, slowing, tuning.friction, tuning.mass, dt);
    let before = boat.velocity;
    let after = boat.velocity_after(dt, tuning);
    assert(is_slowed(before.x, after.x));
    assert(is_slowed(before.y, after.y));
    assert(is_slowed(before.z, after.z));
    lemma_shorter(before, after);
}

/// A vector whose components all lie closer to zero is no longer.
proof fn lemma_shorter(before: Vec3, after: Vec3)
    requires
        is_slowed(before.x, after.x),
        is_slowed(before.y, after.y),
        is_slowed(before.z, after.z),
    ensures
        after.spec_length() <= before.spec_length(),
{
    let n = before.raw_length_squared();
    let m = after.raw_length_squared();
    let bx = saturate(before.x as int) as int;
    let by = saturate(before.y as int) as int;
    let bz = saturate(before.z as int) as int;
    let ax = saturate(after.x as int) as int;
    let ay = saturate(after.y as int) as int;
    let az = saturate(after.z as int) as int;
    assert(ax * ax <= bx * bx) by (nonlinear_arith)
        requires
            (bx >= 0 ==> 0 <= ax <= bx) && (bx <= 0 ==> bx <= ax <= 0),
    ;
    assert(ay * ay <= by * by) by (nonlinear_arith)
        requires
            (by >= 0 ==> 0 <= ay <= by) && (by <= 0 ==> by <= ay <= 0),
    ;
    assert(az * az <= bz * bz) by (nonlinear_arith)
        requires
            (bz >= 0 ==> 0 <= az <= bz) && (bz <= 0 ==> bz <= az <= 0),
    ;
    assert(ax * ax >= 0 && ay * ay >= 0 && az * az >= 0) by (nonlinear_arith);
    assert(0 * 0 == 0) by (nonlinear_arith);
    assert(0 <= m <= n);
    let r = lemma_isqrt_exists(n as nat);
    let q = lemma_isqrt_exists(m as nat);
    lemma_isqrt_at_least(n as nat, r, q);
}

/// Anything times nothing is nothing.
proof fn lemma_times_nothing(a: i64)
    ensures
        spec_fx_mul(a, 0) == 0,
{
    assert(a * 0 == 0) by (nonlinear_arith);
}

/// Nothing times anything is nothing.
proof fn lemma_nothing_times(a: i64)
    ensures
        spec_fx_mul(0, a) == 0,
{
    assert(0 * a == 0) by (nonlinear_arith);
}

/// A puff of spray as it is shown: where, how large, and whether at all.
#[derive(Clone, Copy, Debug, PartialEq, Eq, Structural)]
pub struct ExhaustPuff {
    pub particle: BoatExhaustParticle,
    pub transform: Transform,
    pub scale: i64,
    pub visible: bool,
}

/// The time between two puffs.
pub const EXHAUST_INTERVAL: i64 = 100_000_000;

/// The size at which a puff leaves the boat.
pub const EXHAUST_SCALE: i64 = 10_000_000;

/// The seconds over which a puff of size one would fade.
pub const EXHAUST_FADE: i64 = 100_000_000_000;

/// Where the paddle sits on the boat.
pub open spec fn spec_paddle_translation() -> Vec3 {
    Vec3 { x: 450_000_000, y: 0, z: 1_900_000_000 }
}

/// Where the paddle sits on the boat.
#[verifier::when_used_as_spec(spec_paddle_translation)]
pub fn paddle_translation() -> (r: Vec3)
    ensures
        r == spec_paddle_translation(),
{
    Vec3 { x: 450_000_000, y: 0, z: 1_900_000_000 }
}

/// Whether the next puff is due.
pub open spec fn exhaust_due(now: i64, last: i64) -> bool {
    spec_sat_sub(now, last) > EXHAUST_INTERVAL
}

/// The index of the first free puff from `from` on, or the number of puffs
/// if none is free.
pub open spec fn first_free(puffs: Seq<ExhaustPuff>, from: int) -> int
    decreases puffs.len() - from,
{
    if from < 0 || from >= puffs.len() {
        puffs.len() as int
    } else if puffs[from].particle.free {
        from
    } else {
        first_free(puffs, from + 1)
    }
}

/// A puff as it leaves the boat: one below the paddle, turned as the boat,
/// small, and shown.
pub open spec fn spec_emitted(boat_transform: Transform) -> ExhaustPuff {
    ExhaustPuff {
        particle: BoatExhaustParticle { free: false },
        transform: Transform {
            translation: boat_transform.translation.spec_plus(
                boat_transform.rotation.spec_rotate(
                    spec_paddle_translation().spec_plus(Vec3 { x: 0, y: -1_000_000_000i64, z: 0 }),
                ),
            ),
            rotation: boat_transform.rotation,
        },
        scale: EXHAUST_SCALE,
        visible: true,
    }
}

/// A puff after `dt` seconds: a free one stays; one in the air shrinks, and
/// shrunk to nothing it is hidden and free again.
pub open spec fn spec_faded(puff: ExhaustPuff, dt: i64) -> ExhaustPuff {
    if puff.particle.free {
        puff
    } else {
        let share = spec_mul_div(dt, SCALE, EXHAUST_FADE);
        let loss = if share < 0 {
            0
        } else if share > SCALE {
            SCALE
        } else {
            share
        };
        let scale = spec_sat_sub(puff.scale, loss);
        if scale <= 0 {
            ExhaustPuff {
                particle: BoatExhaustParticle { free: true },
                scale,
                visible: false,
                ..puff
            }
        } else {
            ExhaustPuff { scale, ..puff }
        }
    }
}

/// The `i`th puff after a step: the first free one leaves the boat if a
/// puff is due, and every one fades.
pub open spec fn puff_after(
    puffs: Seq<ExhaustPuff>,
    i: int,
    now: i64,
    dt: i64,
    last: i64,
    boat_transform: Transform,
) -> ExhaustPuff {
    if exhaust_due(now, last) && i == first_free(puffs, 0) {
        spec_faded(spec_emitted(boat_transform), dt)
    } else {
        spec_faded(puffs[i], dt)
    }
}

fn find_free(puffs: &Vec<ExhaustPuff>) -> (r: usize)
    ensures
        r == first_free(puffs@, 0),
        r <= puffs.len(),
{
    let mut i: usize = 0;
    while i < puffs.len()
        invariant
            i <= puffs.len(),
            first_free(puffs@, 0) == first_free(puffs@, i as int),
        decreases puffs.len() - i,
    {
        if puffs[i].particle.free {
            return i;
        }
        i += 1;
    }
    i
}

fn faded(puff: ExhaustPuff, dt: i64) -> (r: ExhaustPuff)
    ensures
        r == spec_faded(puff, dt),
{
    if puff.particle.free {
        puff
    } else {
        let share = mul_div(dt, SCALE, EXHAUST_FADE);
        let loss = if share < 0 {
            0
        } else if share > SCALE {
            SCALE
        } else {
            share
        };
        let scale = sat_sub(puff.scale, loss);
        if scale <= 0 {
            ExhaustPuff {
                particle: BoatExhaustParticle { free: true },
                transform: puff.transform,
                scale,
                visible: false,
            }
        } else {
            ExhaustPuff {
                particle: puff.particle,
                transform: puff.transform,
                scale,
                visible: puff.visible,
            }
        }
    }
}

/// Works the spray for one step of `dt` seconds at the clock time `now`.
///
/// More than a tenth of a second after the last puff the next is due: the
/// first free puff, if there is one, leaves the boat, and the time is
/// noted. Then every puff in the air fades.
pub fn boat_exhaust_system(
    now: i64,
    dt: i64,
    boat: &mut PlayerBoat,
    boat_transform: &Transform,
    puffs: &mut Vec<ExhaustPuff>,
)
    ensures
        *final(boat) == (PlayerBoat {
            exhaust_last: if exhaust_due(now, old(boat).exhaust_last) {
                now
            } else {
                old(boat).exhaust_last
            },
            ..*old(boat)
        }),
        final(puffs)@.len() == old(puffs)@.len(),
        forall|i: int|
            0 <= i < old(puffs)@.len() ==> #[trigger] final(puffs)@[i] == puff_after(
                old(puffs)@,
                i,
                now,
                dt,
                old(boat).exhaust_last,
                *boat_transform,
            ),
{
    let ghost start = puffs@;
    let due = sat_sub(now, boat.exhaust_last) > EXHAUST_INTERVAL;
    if due {
        let free = find_free(puffs);
        if free < puffs.len() {
            let below = paddle_translation().plus(Vec3 { x: 0, y: -1_000_000_000, z: 0 });
            puffs.set(
                free,
                ExhaustPuff {
                    particle: BoatExhaustParticle { free: false },
                    transform: Transform {
                        translation: boat_transform.translation.plus(
                            boat_transform.rotation.rotate(below),
                        ),
                        rotation: boat_transform.rotation,
                    },
                    scale: EXHAUST_SCALE,
                    visible: true,
                },
            );
        }
        boat.exhaust_last = now;
    }
    let ghost emitted = puffs@;
    let mut i: usize = 0;
    while i < puffs.len()
        invariant
            i <= puffs.len(),
            puffs@.len() == emitted.len(),
            forall|j: int| 0 <= j < i ==> #[trigger] puffs@[j] == spec_faded(emitted[j], dt),
            forall|j: int| i <= j < emitted.len() ==> #[trigger] puffs@[j] == emitted[j],
        decreases puffs.len() - i,
    {
        let puff = faded(puffs[i], dt);
        puffs.set(i, puff);
        i += 1;
    }
}

} // verus!
