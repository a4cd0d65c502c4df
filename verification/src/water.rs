//! The ocean surface: three trochoidal waves laid over one another.
//!
//! A wave moves each point of the surface round a circle, so a sample is the
//! base point plus one offset per wave, together with the two tangent
//! directions of the displaced surface. The waves are applied one after the
//! other to the same running sums.
use vstd::prelude::*;
use crate::fixed::{
    fx_mul, fx_sqrt, lemma_isqrt_exists, lemma_isqrt_is, mul_div, sat_add, sat_neg, sat_sub, spec_fx_mul,
    spec_fx_sqrt, spec_mul_div, spec_sat_add, spec_sat_neg, spec_sat_sub, trunc_div, SCALE,
    TWO_PI,
};
use crate::quat::{lemma_normalize_unit, Quat, Transform};
use crate::trig::{lemma_sin_cos_unit, sin_cos_turns, spec_sin_cos_turns};
use crate::unit::{
    abs_int, boost, boosted_length, lemma_mul_div_magnitude, lemma_normalize4_unit,
    lemma_trunc_div_bounds, same_signs, spec_normalize4, sq_sum, unit_component,
};
use crate::vector::{Vec2, Vec3, Vec4};

verus! {

/// Gravitational acceleration.
pub const GRAVITY: i64 = 9_800_000_000;

/// The steepness of each wave at a weather intensity of one.
pub const STEEPNESS_FACTOR: i64 = 100_000_000;

/// A normal whose height is above this counts as pointing straight up.
pub const UPRIGHT: i64 = 999_990_000;

/// How rough the sea is; one is an ordinary day.
#[derive(Clone, Copy, Debug, PartialEq, Eq, Structural)]
pub struct Weather {
    pub wave_intensity: i64,
}

/// One wave: how long, how steep, and where it runs.
#[derive(Clone, Copy, Debug, PartialEq, Eq, Structural)]
pub struct WaveProperties {
    pub wavelength: i64,
    pub steepness: i64,
    pub direction: Vec2,
}

/// Why a wave was refused.
#[derive(Clone, Copy, Debug, PartialEq, Eq, Structural)]
pub enum WaveError {
    /// The wavelength is zero or negative.
    Wavelength,
    /// The steepness is negative.
    Steepness,
    /// The direction is the zero vector.
    Direction,
}

/// The sea: its three waves and how fast they run against the clock.
#[derive(Clone, Copy, Debug)]
pub struct Water {
    pub waves: [WaveProperties; 3],
    pub wave_speed: i64,
}

/// The surface at one point and time.
#[derive(Clone, Copy, Debug, PartialEq, Eq, Structural)]
pub struct WaveData {
    pub position: Vec3,
    pub normal: Vec3,
    pub binormal: Vec3,
    pub tangent: Vec3,
}

/// Something that floats, with its own heading in radians.
#[derive(Clone, Copy, Debug, PartialEq, Eq, Structural)]
pub struct Swimmer {
    pub world_rotation: i64,
}

/// Marks the camera whose position the water shader is told.
#[derive(Clone, Copy, Debug, PartialEq, Eq, Structural)]
pub struct WaterCamera;

/// The running sums of a sample: displaced point and the two tangents.
#[derive(Clone, Copy, Debug, PartialEq, Eq, Structural)]
pub struct WaveSum {
    pub position: Vec3,
    pub tangent: Vec3,
    pub binormal: Vec3,
}

impl WaveProperties {
    /// A wave that can be sampled: positive wavelength, steepness not
    /// negative, a direction that is not the zero vector.
    pub open spec fn wf(self) -> bool {
        &&& self.wavelength > 0
        &&& self.steepness >= 0
        &&& !(self.direction.x == 0 && self.direction.y == 0)
    }

    /// Why a wave that cannot be sampled is refused: for its wavelength
    /// before its steepness, for its steepness before its direction.
    pub open spec fn fault(self) -> WaveError {
        if self.wavelength <= 0 {
            WaveError::Wavelength
        } else if self.steepness < 0 {
            WaveError::Steepness
        } else {
            WaveError::Direction
        }
    }

    /// A wave of the given parameters. It is made exactly if it can be
    /// sampled, and else refused with its fault.
    pub fn new(wavelength: i64, steepness: i64, direction: Vec2) -> (r: Result<
        WaveProperties,
        WaveError,
    >)
        ensures
            (WaveProperties { wavelength, steepness, direction }).wf() ==> r == Ok::<
                WaveProperties,
                WaveError,
            >((WaveProperties { wavelength, steepness, direction })),
            !(WaveProperties { wavelength, steepness, direction }).wf() ==> r == Err::<
                WaveProperties,
                WaveError,
            >((WaveProperties { wavelength, steepness, direction }).fault()),
    {
        if wavelength <= 0 {
            Err(WaveError::Wavelength)
        } else if steepness < 0 {
            Err(WaveError::Steepness)
        } else if direction.x == 0 && direction.y == 0 {
            Err(WaveError::Direction)
        } else {
            Ok(WaveProperties { wavelength, steepness, direction })
        }
    }

    /// Whether the wave can be sampled.
    pub fn is_valid(&self) -> (r: bool)
        ensures
            r == self.wf(),
    {
        self.wavelength > 0 && self.steepness >= 0 && !(self.direction.x == 0 && self.direction.y
            == 0)
    }

    /// What `to_vec4` returns.
    pub open spec fn spec_to_vec4(&self) -> Vec4 {
        Vec4 { x: self.direction.x, y: self.direction.y, z: self.wavelength, w: self.steepness }
    }

    /// The wave as the shader takes it: direction, wavelength, steepness.
    #[verifier::when_used_as_spec(spec_to_vec4)]
    pub fn to_vec4(&self) -> (r: Vec4)
        ensures
            r == self.spec_to_vec4(),
    {
        Vec4 { x: self.direction.x, y: self.direction.y, z: self.wavelength, w: self.steepness }
    }

    /// The direction at unit length.
    pub open spec fn unit_direction(self) -> Vec2 {
        match self.direction.spec_normalize() {
            Some(d) => d,
            None => Vec2 { x: 0, y: 0 },
        }
    }

    /// The speed at which the crests travel: `sqrt(g / k)` with the wave
    /// number `k = 2 pi / wavelength`.
    pub open spec fn phase_speed(self) -> i64 {
        spec_fx_sqrt(spec_mul_div(GRAVITY, self.wavelength, TWO_PI))
    }

    /// The radius of the circle a surface point moves on: `steepness / k`.
    pub open spec fn amplitude(self) -> i64 {
        spec_mul_div(self.steepness, self.wavelength, TWO_PI)
    }

    /// The phase `k (d . p - c t)` at the point `(x, z)` and time `t`,
    /// counted in turns.
    pub open spec fn phase_turns(self, x: i64, z: i64, time: i64) -> i64 {
        let d = self.unit_direction();
        spec_mul_div(
            spec_sat_sub((Vec2 { x, y: z }).spec_dot(d), spec_fx_mul(self.phase_speed(), time)),
            SCALE,
            self.wavelength,
        )
    }

    /// What this wave adds to the displaced point.
    pub open spec fn offset(self, x: i64, z: i64, time: i64) -> Vec3 {
        let d = self.unit_direction();
        let sc = spec_sin_cos_turns(self.phase_turns(x, z, time));
        let a = self.amplitude();
        let swing = spec_fx_mul(a, sc.1);
        Vec3 {
            x: spec_fx_mul(d.x, swing),
            y: spec_sat_add(spec_fx_mul(a, sc.0), a),
            z: spec_fx_mul(d.y, swing),
        }
    }

    /// What this wave adds to the tangent, the slope along x.
    pub open spec fn tangent_term(self, x: i64, z: i64, time: i64) -> Vec3 {
        let d = self.unit_direction();
        let sc = spec_sin_cos_turns(self.phase_turns(x, z, time));
        let rise = spec_fx_mul(self.steepness, sc.1);
        let lean = spec_fx_mul(self.steepness, sc.0);
        Vec3 {
            x: spec_fx_mul(spec_fx_mul(spec_sat_neg(d.x), d.x), lean),
            y: spec_fx_mul(d.x, rise),
            z: spec_fx_mul(spec_fx_mul(spec_sat_neg(d.x), d.y), lean),
        }
    }

    /// What this wave adds to the binormal, the slope along z.
    pub open spec fn binormal_term(self, x: i64, z: i64, time: i64) -> Vec3 {
        let d = self.unit_direction();
        let sc = spec_sin_cos_turns(self.phase_turns(x, z, time));
        let rise = spec_fx_mul(self.steepness, sc.1);
        let lean = spec_fx_mul(self.steepness, sc.0);
        Vec3 {
            x: spec_fx_mul(spec_fx_mul(spec_sat_neg(d.x), d.y), lean),
            y: spec_fx_mul(d.y, rise),
            z: spec_fx_mul(spec_fx_mul(spec_sat_neg(d.y), d.y), lean),
        }
    }

    /// The running sums after this wave. A wave without steepness changes
    /// nothing.
    pub open spec fn applied(self, position: Vec3, time: i64, sum: WaveSum) -> WaveSum {
        if self.steepness == 0 {
            sum
        } else {
            WaveSum {
                position: sum.position.spec_plus(self.offset(position.x, position.z, time)),
                tangent: sum.tangent.spec_plus(self.tangent_term(position.x, position.z, time)),
                binormal: sum.binormal.spec_plus(
                    self.binormal_term(position.x, position.z, time),
                ),
            }
        }
    }
}

/// The sums before any wave: the base point, and the axes of flat water.
pub open spec fn calm(position: Vec3) -> WaveSum {
    WaveSum { position, tangent: Vec3::spec_unit_x(), binormal: Vec3::spec_unit_z() }
}

/// The sums after three waves, applied in the order given.
pub open spec fn sum_of_three(
    position: Vec3,
    time: i64,
    a: WaveProperties,
    b: WaveProperties,
    c: WaveProperties,
) -> WaveSum {
    c.applied(position, time, b.applied(position, time, a.applied(position, time, calm(position))))
}

/// The sums after all three waves, in their order.
pub open spec fn spec_wave_sum(position: Vec3, time: i64, waves: [WaveProperties; 3]) -> WaveSum {
    sum_of_three(position, time, waves[0], waves[1], waves[2])
}

/// The sums of three waves, wave by wave.
pub proof fn lemma_sum_of_waves(position: Vec3, time: i64, waves: [WaveProperties; 3])
    ensures
        spec_wave_sum(position, time, waves) == waves[2].applied(
            position,
            time,
            waves[1].applied(position, time, waves[0].applied(position, time, calm(position))),
        ),
{
}

/// The surface at `position` and `time`: the sums, and the normal they span.
/// Where the two tangents span nothing the normal is straight up.
pub open spec fn spec_wave_sequence(position: Vec3, time: i64, waves: [WaveProperties; 3])
    -> WaveData {
    let sum = spec_wave_sum(position, time, waves);
    WaveData {
        position: sum.position,
        normal: sum.binormal.spec_cross(sum.tangent).spec_normalize_or(Vec3::spec_unit_y()),
        binormal: sum.binormal,
        tangent: sum.tangent,
    }
}

/// Adds one wave to the running sums of the sample at `position`.
pub fn gerstner_wave(
    position: Vec3,
    time: i64,
    target: &mut Vec3,
    tangent: &mut Vec3,
    binormal: &mut Vec3,
    props: &WaveProperties,
)
    requires
        props.wf(),
    ensures
        (WaveSum { position: *final(target), tangent: *final(tangent), binormal: *final(binormal) })
            == props.applied(
            position,
            time,
            (WaveSum { position: *old(target), tangent: *old(tangent), binormal: *old(binormal) }),
        ),
{
    if props.steepness == 0 {
        return ;
    }
    let d = match props.direction.normalize() {
        Some(d) => d,
        None => Vec2 { x: 0, y: 0 },
    };
    let c = fx_sqrt(mul_div(GRAVITY, props.wavelength, TWO_PI));
    let along = (Vec2 { x: position.x, y: position.z }).dot(d);
    let turns = mul_div(sat_sub(along, fx_mul(c, time)), SCALE, props.wavelength);
    let (sin_f, cos_f) = sin_cos_turns(turns);
    let a = mul_div(props.steepness, props.wavelength, TWO_PI);
    let swing = fx_mul(a, cos_f);
    let rise = fx_mul(props.steepness, cos_f);
    let lean = fx_mul(props.steepness, sin_f);
    *target = target.plus(
        Vec3 { x: fx_mul(d.x, swing), y: sat_add(fx_mul(a, sin_f), a), z: fx_mul(d.y, swing) },
    );
    *tangent = tangent.plus(
        Vec3 {
            x: fx_mul(fx_mul(sat_neg(d.x), d.x), lean),
            y: fx_mul(d.x, rise),
            z: fx_mul(fx_mul(sat_neg(d.x), d.y), lean),
        },
    );
    *binormal = binormal.plus(
        Vec3 {
            x: fx_mul(fx_mul(sat_neg(d.x), d.y), lean),
            y: fx_mul(d.y, rise),
            z: fx_mul(fx_mul(sat_neg(d.y), d.y), lean),
        },
    );
}

/// Samples the surface: the three waves in order, then the normal.
///
/// The result is a function of the arguments alone.
pub fn wave_sequence(position: Vec3, time: i64, waves: &[WaveProperties; 3]) -> (r: WaveData)
    requires
        waves[0].wf(),
        waves[1].wf(),
        waves[2].wf(),
    ensures
        r == spec_wave_sequence(position, time, *waves),
{
    let mut target = position;
    let mut tangent = Vec3::unit_x();
    let mut binormal = Vec3::unit_z();
    gerstner_wave(position, time, &mut target, &mut tangent, &mut binormal, &waves[0]);
    gerstner_wave(position, time, &mut target, &mut tangent, &mut binormal, &waves[1]);
    gerstner_wave(position, time, &mut target, &mut tangent, &mut binormal, &waves[2]);
    WaveData {
        position: target,
        normal: binormal.cross(tangent).normalize_or(Vec3::unit_y()),
        binormal,
        tangent,
    }
}

/// The three waves of the sea at a weather intensity.
pub open spec fn spec_get_waves(intensity: i64) -> [WaveProperties; 3] {
    [
        WaveProperties {
            wavelength: 60_000_000_000,
            steepness: spec_fx_mul(intensity, STEEPNESS_FACTOR),
            direction: Vec2 { x: 1_000_000_000, y: 0 },
        },
        WaveProperties {
            wavelength: 31_000_000_000,
            steepness: spec_fx_mul(intensity, STEEPNESS_FACTOR),
            direction: Vec2 { x: 1_000_000_000, y: 600_000_000 },
        },
        WaveProperties {
            wavelength: 18_000_000_000,
            steepness: spec_fx_mul(intensity, STEEPNESS_FACTOR),
            direction: Vec2 { x: 1_000_000_000, y: 1_300_000_000 },
        },
    ]
}

/// The three waves of the sea at a weather intensity: wavelengths of 60, 31
/// and 18, all of steepness `intensity / 10`, fanned out from the x axis.
#[verifier::when_used_as_spec(spec_get_waves)]
pub fn get_waves(intensity: i64) -> (r: [WaveProperties; 3])
    requires
        intensity >= 0,
    ensures
        r == spec_get_waves(intensity),
        r[0].wf() && r[1].wf() && r[2].wf(),
        intensity == 0 ==> r[0].steepness == 0 && r[1].steepness == 0 && r[2].steepness == 0,
{
    let steepness = fx_mul(intensity, STEEPNESS_FACTOR);
    [
        WaveProperties {
            wavelength: 60_000_000_000,
            steepness,
            direction: Vec2 { x: 1_000_000_000, y: 0 },
        },
        WaveProperties {
            wavelength: 31_000_000_000,
            steepness,
            direction: Vec2 { x: 1_000_000_000, y: 600_000_000 },
        },
        WaveProperties {
            wavelength: 18_000_000_000,
            steepness,
            direction: Vec2 { x: 1_000_000_000, y: 1_300_000_000 },
        },
    ]
}

/// Gives the sea the waves of a weather intensity.
pub fn set_waves(water: &mut Water, intensity: i64)
    requires
        intensity >= 0,
    ensures
        final(water).waves == spec_get_waves(intensity),
        final(water).wave_speed == old(water).wave_speed,
        final(water).wf(),
{
    water.waves = get_waves(intensity);
}

impl Water {
    /// All three waves can be sampled.
    pub open spec fn wf(self) -> bool {
        self.waves[0].wf() && self.waves[1].wf() && self.waves[2].wf()
    }

    /// Why the first wave that cannot be sampled is refused, if any is.
    pub open spec fn first_fault(waves: [WaveProperties; 3]) -> Option<WaveError> {
        if !waves[0].wf() {
            Some(waves[0].fault())
        } else if !waves[1].wf() {
            Some(waves[1].fault())
        } else if !waves[2].wf() {
            Some(waves[2].fault())
        } else {
            None
        }
    }

    /// A sea of three given waves. It is refused for the first wave that
    /// cannot be sampled, with that wave's fault.
    pub fn new(waves: [WaveProperties; 3], wave_speed: i64) -> (r: Result<Water, WaveError>)
        ensures
            match Water::first_fault(waves) {
                Some(fault) => r == Err::<Water, WaveError>(fault),
                None => r is Ok && r->Ok_0.waves == waves && r->Ok_0.wave_speed == wave_speed
                    && r->Ok_0.wf(),
            },
    {
        match WaveProperties::new(waves[0].wavelength, waves[0].steepness, waves[0].direction) {
            Err(fault) => {
                return Err(fault);
            },
            Ok(_) => {},
        }
        match WaveProperties::new(waves[1].wavelength, waves[1].steepness, waves[1].direction) {
            Err(fault) => {
                return Err(fault);
            },
            Ok(_) => {},
        }
        match WaveProperties::new(waves[2].wavelength, waves[2].steepness, waves[2].direction) {
            Err(fault) => {
                return Err(fault);
            },
            Ok(_) => {},
        }
        Ok(Water { waves, wave_speed })
    }

    /// What `wave_data_at_point` returns.
    pub open spec fn spec_wave_data_at_point(&self, point: Vec2, time: i64) -> WaveData {
        spec_wave_sequence(Vec3 { x: point.x, y: 0, z: point.y }, time, self.waves)
    }

    /// The surface above the point `(x, z)` of the plane at `time`.
    #[verifier::when_used_as_spec(spec_wave_data_at_point)]
    pub fn wave_data_at_point(&self, point: Vec2, time: i64) -> (r: WaveData)
        requires
            self.wf(),
        ensures
            r == self.spec_wave_data_at_point(point, time),
    {
        let input_point = Vec3 { x: point.x, y: 0, z: point.y };
        wave_sequence(input_point, time, &self.waves)
    }

    /// What `height_at_point` returns.
    pub open spec fn spec_height_at_point(&self, point: Vec2, time: i64) -> i64 {
        self.spec_wave_data_at_point(point, time).position.y
    }

    /// The height of the surface: the `y` of the full sample, never a
    /// computation of its own.
    #[verifier::when_used_as_spec(spec_height_at_point)]
    pub fn height_at_point(&self, point: Vec2, time: i64) -> (r: i64)
        requires
            self.wf(),
        ensures
            r == self.spec_wave_data_at_point(point, time).position.y,
    {
        self.wave_data_at_point(point, time).position.y
    }
}

/// The rotation that `surface_quat` gives for a surface normal.
pub open spec fn spec_surface_quat(normal: Vec3) -> Quat {
    if normal.y > UPRIGHT {
        Quat::spec_identity()
    } else if normal.y < -UPRIGHT {
        Quat { x: SCALE, y: 0, z: 0, w: 0 }
    } else {
        (Quat {
            x: normal.z,
            y: 0,
            z: spec_sat_neg(normal.x),
            w: spec_sat_add(SCALE, normal.y),
        }).spec_normalize()
    }
}

/// The shortest rotation that takes world up onto the surface normal.
///
/// A normal that already points up gives the identity; one that points
/// straight down gives the half turn about x. Otherwise the rotation turns
/// about the horizontal axis `up x normal = (normal.z, 0, -normal.x)` by the
/// angle whose cosine is `normal.y`: that is the quaternion
/// `(up x normal, 1 + up . normal)` scaled to unit length. The result is a
/// unit quaternion for every input; it turns about a horizontal axis, by no
/// more than half a turn.
pub fn surface_quat(wavedata: &WaveData) -> (r: Quat)
    ensures
        r == spec_surface_quat(wavedata.normal),
        r.is_unit(),
        r.y == 0,
        r.w >= 0,
{
    let normal = wavedata.normal;
    proof {
        lemma_surface_quat_axis(normal);
    }
    if normal.y > UPRIGHT {
        Quat::identity()
    } else if normal.y < -UPRIGHT {
        Quat { x: SCALE, y: 0, z: 0, w: 0 }
    } else {
        (Quat { x: normal.z, y: 0, z: sat_neg(normal.x), w: sat_add(SCALE, normal.y) }).normalize()
    }
}

/// Floats one swimmer: sets its height to the surface under it, above the
/// level at which the sea lies, and lays it on the surface with its own
/// heading. The clock runs at the sea's wave speed.
pub fn wave_probe_system(
    seconds: i64,
    swimmer: &Swimmer,
    transform: &mut Transform,
    water: &Water,
    water_transform: &Transform,
)
    requires
        water.wf(),
    ensures
        final(transform).translation == (Vec3 {
            x: old(transform).translation.x,
            y: spec_sat_add(
                probe_sample(seconds, old(transform).translation, *water).position.y,
                water_transform.translation.y,
            ),
            z: old(transform).translation.z,
        }),
        final(transform).rotation == spec_surface_quat(
            probe_sample(seconds, old(transform).translation, *water).normal,
        ).spec_times(Quat::spec_from_rotation_y(swimmer.world_rotation)),
{
    let wavedata = water.wave_data_at_point(
        Vec2 { x: transform.translation.x, y: transform.translation.z },
        fx_mul(seconds, water.wave_speed),
    );
    transform.translation.y = sat_add(wavedata.position.y, water_transform.translation.y);
    transform.rotation = surface_quat(&wavedata).times(
        Quat::from_rotation_y(swimmer.world_rotation),
    );
}

/// The sample under something that stands at `translation`.
pub open spec fn probe_sample(seconds: i64, translation: Vec3, water: Water) -> WaveData {
    water.spec_wave_data_at_point(
        Vec2 { x: translation.x, y: translation.z },
        spec_fx_mul(seconds, water.wave_speed),
    )
}

/// The side of the squares by which the sea follows the boat.
pub const WATER_TRANSLATE_STEP: i64 = 20_000_000_000;

/// The multiple of `step` nearest to `v` on the side of zero.
pub open spec fn spec_snap_to_step(v: i64, step: i64) -> i64 {
    (trunc_div(v as int, step as int) * step) as i64
}

/// The multiple of `step` nearest to `v` on the side of zero.
#[verifier::when_used_as_spec(spec_snap_to_step)]
pub fn snap_to_step(v: i64, step: i64) -> (r: i64)
    requires
        step > 0,
    ensures
        r == spec_snap_to_step(v, step),
        v >= 0 ==> v - step < r <= v,
        v <= 0 ==> v <= r < v + step,
{
    let q: i64 = v / step;
    proof {
        lemma_trunc_div_bounds(v as int, step as int);
        let u = abs_int(q as int);
        assert(q * step == if v >= 0 {
            u * step
        } else {
            -(u * step)
        }) by (nonlinear_arith)
            requires
                u == abs_int(q as int),
                (v >= 0 ==> q >= 0),
                (v < 0 ==> q <= 0),
        ;
        assert((u + 1) * step == u * step + step) by (nonlinear_arith);
    }
    q * step
}

/// Where the sea lies for a boat at `boat`: under it, on the corner of its
/// square that is nearest the origin, at the sea's own height.
pub open spec fn spec_water_anchor(water: Vec3, boat: Vec3) -> Vec3 {
    Vec3 {
        x: spec_snap_to_step(boat.x, WATER_TRANSLATE_STEP),
        y: water.y,
        z: spec_snap_to_step(boat.z, WATER_TRANSLATE_STEP),
    }
}

/// Moves the sea under the boat by whole squares, so that its pattern does
/// not slide with the boat.
#[verifier::when_used_as_spec(spec_water_anchor)]
pub fn water_anchor(water: Vec3, boat: Vec3) -> (r: Vec3)
    ensures
        r == spec_water_anchor(water, boat),
{
    Vec3 {
        x: snap_to_step(boat.x, WATER_TRANSLATE_STEP),
        y: water.y,
        z: snap_to_step(boat.z, WATER_TRANSLATE_STEP),
    }
}

impl Default for Swimmer {
    fn default() -> (r: Swimmer)
        ensures
            r.world_rotation == 0,
    {
        Swimmer { world_rotation: 0 }
    }
}

/// Without weather the waves have no steepness.
pub proof fn lemma_no_weather_no_steepness()
    ensures
        spec_get_waves(0)[0].steepness == 0,
        spec_get_waves(0)[1].steepness == 0,
        spec_get_waves(0)[2].steepness == 0,
{
}

/// Waves without steepness leave the sea flat: the sample is the base point
/// itself, with the axes of the plane as tangents and the normal straight
/// up, and something laid on it is not turned.
pub proof fn lemma_calm_sea(position: Vec3, time: i64, waves: [WaveProperties; 3])
    requires
        waves[0].steepness == 0,
        waves[1].steepness == 0,
        waves[2].steepness == 0,
    ensures
        spec_wave_sequence(position, time, waves) == (WaveData {
            position,
            normal: Vec3::spec_unit_y(),
            binormal: Vec3::spec_unit_z(),
            tangent: Vec3::spec_unit_x(),
        }),
        spec_surface_quat(spec_wave_sequence(position, time, waves).normal)
            == Quat::spec_identity(),
{
    let cross = Vec3::spec_unit_z().spec_cross(Vec3::spec_unit_x());
    assert(cross == Vec3::spec_unit_y());
    assert(1_000_000_000_000_000_000 * 1_000_000_000_000_000_000
        == 1_000_000_000_000_000_000_000_000_000_000_000_000);
    assert(1_000_000_000_000_000_001 * 1_000_000_000_000_000_001
        == 1_000_000_000_000_000_002_000_000_000_000_000_001);
    lemma_isqrt_is(1_000_000_000_000_000_000_000_000_000_000_000_000, 1_000_000_000_000_000_000);
    assert(spec_normalize4(0, SCALE, 0, 0) == Some((0i64, SCALE, 0i64, 0i64)));
}

/// The rotation onto a surface normal is a unit quaternion, whatever the
/// normal.
pub proof fn lemma_surface_quat_unit(normal: Vec3)
    ensures
        spec_surface_quat(normal).is_unit(),
{
    if -UPRIGHT <= normal.y <= UPRIGHT {
        lemma_normalize_unit(
            Quat {
                x: normal.z,
                y: 0,
                z: spec_sat_neg(normal.x),
                w: spec_sat_add(SCALE, normal.y),
            },
        );
    }
}

/// The rotation onto a surface normal turns about a horizontal axis, by no
/// more than half a turn; short of the two poles the axis lies along
/// `up x normal`.
pub proof fn lemma_surface_quat_axis(normal: Vec3)
    ensures
        spec_surface_quat(normal).y == 0,
        spec_surface_quat(normal).w >= 0,
        -UPRIGHT <= normal.y <= UPRIGHT ==> same_signs(normal.z, spec_surface_quat(normal).x)
            && same_signs(spec_sat_neg(normal.x), spec_surface_quat(normal).z),
{
    if -UPRIGHT <= normal.y <= UPRIGHT {
        lemma_normalize4_unit(
            normal.z,
            0,
            spec_sat_neg(normal.x),
            spec_sat_add(SCALE, normal.y),
        );
    }
}

/// A product with a factor between minus one and one is no larger than
/// the other factor.
pub proof fn lemma_fx_mul_shrinks(a: i64, s: i64)
    requires
        a >= 0,
        -SCALE <= s <= SCALE,
    ensures
        -a <= spec_fx_mul(a, s) <= a,
{
    let p = a * s;
    assert(-(a * SCALE) <= p <= a * SCALE) by (nonlinear_arith)
        requires
            p == a * s,
            a >= 0,
            -SCALE <= s <= SCALE,
    ;
    lemma_trunc_div_bounds(p, SCALE as int);
    let u = abs_int(trunc_div(p, SCALE as int));
    assert(u <= a) by (nonlinear_arith)
        requires
            u * SCALE <= abs_int(p),
            abs_int(p) <= a * SCALE,
            SCALE > 0,
            u >= 0,
    ;
}

/// A product with a factor between minus one and one is no larger than
/// the other factor, whatever the signs and whichever comes first.
pub proof fn lemma_fx_mul_within(u: i64, v: i64, bound: int)
    requires
        -SCALE <= u <= SCALE,
        -bound <= v <= bound,
    ensures
        -bound <= spec_fx_mul(u, v) <= bound,
        -bound <= spec_fx_mul(v, u) <= bound,
{
    let p = u * v;
    assert(v * u == p) by (nonlinear_arith)
        requires
            p == u * v,
    ;
    assert(abs_int(p) <= bound * SCALE) by (nonlinear_arith)
        requires
            p == u * v,
            -SCALE <= u <= SCALE,
            -bound <= v <= bound,
    ;
    lemma_trunc_div_bounds(p, SCALE as int);
    let q = abs_int(trunc_div(p, SCALE as int));
    assert(q <= bound) by (nonlinear_arith)
        requires
            q * SCALE <= abs_int(p),
            abs_int(p) <= bound * SCALE,
            SCALE > 0,
            q >= 0,
    ;
}

/// A quarter of the range of values: sums of up to four such numbers do
/// not saturate.
pub const MODERATE: i64 = 0x1fff_ffff_ffff_ffff;

/// Each component lies within `bound` of zero.
pub open spec fn is_within(v: Vec3, bound: int) -> bool {
    &&& -bound <= v.x <= bound
    &&& -bound <= v.y <= bound
    &&& -bound <= v.z <= bound
}

impl WaveProperties {
    /// A wave of moderate size: twice its amplitude and its steepness are
    /// each within a quarter of the range of values.
    pub open spec fn is_moderate(self) -> bool {
        2 * self.amplitude() <= MODERATE && self.steepness <= MODERATE
    }
}

/// What a wave of moderate size adds to the sums is of moderate size.
pub proof fn lemma_wave_terms_moderate(wave: WaveProperties, x: i64, z: i64, time: i64)
    requires
        wave.wf(),
        wave.is_moderate(),
    ensures
        is_within(wave.offset(x, z, time), MODERATE as int),
        is_within(wave.tangent_term(x, z, time), MODERATE as int),
        is_within(wave.binormal_term(x, z, time), MODERATE as int),
{
    lemma_normalize4_unit(wave.direction.x, wave.direction.y, 0, 0);
    let d = wave.unit_direction();
    assert(-SCALE <= d.x <= SCALE && -SCALE <= d.y <= SCALE);
    let turns = wave.phase_turns(x, z, time);
    lemma_sin_cos_unit(turns);
    let sc = spec_sin_cos_turns(turns);
    lemma_wave_lifts(wave, x, z, time);
    let a = wave.amplitude();
    lemma_fx_mul_within(sc.1, a, a as int);
    lemma_fx_mul_within(sc.0, a, a as int);
    let swing = spec_fx_mul(a, sc.1);
    lemma_fx_mul_within(d.x, swing, a as int);
    lemma_fx_mul_within(d.y, swing, a as int);
    let steep = wave.steepness;
    lemma_fx_mul_within(sc.1, steep, steep as int);
    lemma_fx_mul_within(sc.0, steep, steep as int);
    let rise = spec_fx_mul(steep, sc.1);
    let lean = spec_fx_mul(steep, sc.0);
    lemma_fx_mul_within(d.x, rise, steep as int);
    lemma_fx_mul_within(d.y, rise, steep as int);
    lemma_fx_mul_within(spec_sat_neg(d.x), d.x, SCALE as int);
    lemma_fx_mul_within(spec_sat_neg(d.x), d.y, SCALE as int);
    lemma_fx_mul_within(spec_sat_neg(d.y), d.y, SCALE as int);
    lemma_fx_mul_within(spec_fx_mul(spec_sat_neg(d.x), d.x), lean, steep as int);
    lemma_fx_mul_within(spec_fx_mul(spec_sat_neg(d.x), d.y), lean, steep as int);
    lemma_fx_mul_within(spec_fx_mul(spec_sat_neg(d.y), d.y), lean, steep as int);
}

/// The sums lie within `bound`.
pub open spec fn sums_within(sum: WaveSum, bound: int) -> bool {
    is_within(sum.position, bound) && is_within(sum.tangent, bound) && is_within(
        sum.binormal,
        bound,
    )
}

/// Two vectors of moderate size can be added in either order to one within
/// half the range of values, and each widens it by no more than a quarter.
proof fn lemma_plus_swap(a: Vec3, x: Vec3, y: Vec3, bound: int)
    requires
        0 <= bound <= 2 * MODERATE,
        is_within(a, bound),
        is_within(x, MODERATE as int),
        is_within(y, MODERATE as int),
    ensures
        a.spec_plus(x).spec_plus(y) == a.spec_plus(y).spec_plus(x),
        is_within(a.spec_plus(x), bound + MODERATE),
        is_within(a.spec_plus(y), bound + MODERATE),
{
}

/// Two waves of moderate size can be applied in either order, as long as
/// the sums they are applied to lie within half the range of values; and
/// each widens the sums by no more than a quarter of it.
#[verifier::rlimit(60)]
pub proof fn lemma_applied_swap(
    first: WaveProperties,
    second: WaveProperties,
    position: Vec3,
    time: i64,
    sum: WaveSum,
    bound: int,
)
    requires
        first.wf() && first.is_moderate(),
        second.wf() && second.is_moderate(),
        0 <= bound <= 2 * MODERATE,
        sums_within(sum, bound),
    ensures
        second.applied(position, time, first.applied(position, time, sum)) == first.applied(
            position,
            time,
            second.applied(position, time, sum),
        ),
        sums_within(first.applied(position, time, sum), bound + MODERATE),
        sums_within(second.applied(position, time, sum), bound + MODERATE),
{
    let (x, z) = (position.x, position.z);
    lemma_wave_terms_moderate(first, x, z, time);
    lemma_wave_terms_moderate(second, x, z, time);
    lemma_plus_swap(sum.position, first.offset(x, z, time), second.offset(x, z, time), bound);
    lemma_plus_swap(
        sum.tangent,
        first.tangent_term(x, z, time),
        second.tangent_term(x, z, time),
        bound,
    );
    lemma_plus_swap(
        sum.binormal,
        first.binormal_term(x, z, time),
        second.binormal_term(x, z, time),
        bound,
    );
}

/// The first two of three waves can change places.
proof fn lemma_first_two_swap(
    position: Vec3,
    time: i64,
    a: WaveProperties,
    b: WaveProperties,
    c: WaveProperties,
)
    requires
        a.wf() && a.is_moderate(),
        b.wf() && b.is_moderate(),
        is_within(position, MODERATE as int),
    ensures
        sum_of_three(position, time, b, a, c) == sum_of_three(position, time, a, b, c),
{
    lemma_applied_swap(a, b, position, time, calm(position), MODERATE as int);
}

/// The last two of three waves can change places.
proof fn lemma_last_two_swap(
    position: Vec3,
    time: i64,
    a: WaveProperties,
    b: WaveProperties,
    c: WaveProperties,
)
    requires
        a.wf() && a.is_moderate(),
        b.wf() && b.is_moderate(),
        c.wf() && c.is_moderate(),
        is_within(position, MODERATE as int),
    ensures
        sum_of_three(position, time, a, c, b) == sum_of_three(position, time, a, b, c),
{
    lemma_applied_swap(a, a, position, time, calm(position), MODERATE as int);
    lemma_applied_swap(
        b,
        c,
        position,
        time,
        a.applied(position, time, calm(position)),
        2 * MODERATE,
    );
}

/// The order of the waves does not matter: three waves of moderate size,
/// sampled at a point of moderate size, give the same sums in every order.
pub proof fn lemma_sum_order(
    position: Vec3,
    time: i64,
    a: WaveProperties,
    b: WaveProperties,
    c: WaveProperties,
)
    requires
        a.wf() && a.is_moderate(),
        b.wf() && b.is_moderate(),
        c.wf() && c.is_moderate(),
        is_within(position, MODERATE as int),
    ensures
        sum_of_three(position, time, b, a, c) == sum_of_three(position, time, a, b, c),
        sum_of_three(position, time, a, c, b) == sum_of_three(position, time, a, b, c),
        sum_of_three(position, time, c, b, a) == sum_of_three(position, time, a, b, c),
        sum_of_three(position, time, b, c, a) == sum_of_three(position, time, a, b, c),
        sum_of_three(position, time, c, a, b) == sum_of_three(position, time, a, b, c),
{
    lemma_first_two_swap(position, time, a, b, c);
    lemma_last_two_swap(position, time, a, b, c);
    // b c a = b a c = a b c
    lemma_last_two_swap(position, time, b, a, c);
    // c a b = a c b = a b c
    lemma_first_two_swap(position, time, a, c, b);
    // c b a = c a b
    lemma_last_two_swap(position, time, c, a, b);
}

/// The surface that three waves make is the one that their sums span.
pub proof fn lemma_sequence_of_three(
    position: Vec3,
    time: i64,
    a: WaveProperties,
    b: WaveProperties,
    c: WaveProperties,
)
    ensures
        spec_wave_sum(position, time, [a, b, c]) == sum_of_three(position, time, a, b, c),
{
    let waves = [a, b, c];
    assert(waves[0] == a && waves[1] == b && waves[2] == c);
}

/// The order of the waves does not matter: three waves of moderate size,
/// sampled at a point of moderate size, give the same surface in every
/// order.
pub proof fn lemma_wave_order(
    position: Vec3,
    time: i64,
    a: WaveProperties,
    b: WaveProperties,
    c: WaveProperties,
)
    requires
        a.wf() && a.is_moderate(),
        b.wf() && b.is_moderate(),
        c.wf() && c.is_moderate(),
        is_within(position, MODERATE as int),
    ensures
        spec_wave_sequence(position, time, [b, a, c]) == spec_wave_sequence(
            position,
            time,
            [a, b, c],
        ),
        spec_wave_sequence(position, time, [a, c, b]) == spec_wave_sequence(
            position,
            time,
            [a, b, c],
        ),
        spec_wave_sequence(position, time, [c, b, a]) == spec_wave_sequence(
            position,
            time,
            [a, b, c],
        ),
        spec_wave_sequence(position, time, [b, c, a]) == spec_wave_sequence(
            position,
            time,
            [a, b, c],
        ),
        spec_wave_sequence(position, time, [c, a, b]) == spec_wave_sequence(
            position,
            time,
            [a, b, c],
        ),
{
    lemma_sum_order(position, time, a, b, c);
    lemma_sequence_of_three(position, time, a, b, c);
    lemma_sequence_of_three(position, time, b, a, c);
    lemma_sequence_of_three(position, time, a, c, b);
    lemma_sequence_of_three(position, time, c, b, a);
    lemma_sequence_of_three(position, time, b, c, a);
    lemma_sequence_of_three(position, time, c, a, b);
}

/// The steepness up to which three waves together leave the surface
/// facing up: a tenth.
pub const GENTLE: i64 = 100_000_000;

/// What a wave adds to the two tangents is no more than its steepness.
pub proof fn lemma_wave_slopes(wave: WaveProperties, x: i64, z: i64, time: i64)
    requires
        wave.wf(),
    ensures
        is_within(wave.tangent_term(x, z, time), wave.steepness as int),
        is_within(wave.binormal_term(x, z, time), wave.steepness as int),
{
    lemma_normalize4_unit(wave.direction.x, wave.direction.y, 0, 0);
    let d = wave.unit_direction();
    assert(-SCALE <= d.x <= SCALE && -SCALE <= d.y <= SCALE);
    let turns = wave.phase_turns(x, z, time);
    lemma_sin_cos_unit(turns);
    let sc = spec_sin_cos_turns(turns);
    let steep = wave.steepness;
    lemma_fx_mul_within(sc.1, steep, steep as int);
    lemma_fx_mul_within(sc.0, steep, steep as int);
    let rise = spec_fx_mul(steep, sc.1);
    let lean = spec_fx_mul(steep, sc.0);
    lemma_fx_mul_within(d.x, rise, steep as int);
    lemma_fx_mul_within(d.y, rise, steep as int);
    lemma_fx_mul_within(spec_sat_neg(d.x), d.x, SCALE as int);
    lemma_fx_mul_within(spec_sat_neg(d.x), d.y, SCALE as int);
    lemma_fx_mul_within(spec_sat_neg(d.y), d.y, SCALE as int);
    lemma_fx_mul_within(spec_fx_mul(spec_sat_neg(d.x), d.x), lean, steep as int);
    lemma_fx_mul_within(spec_fx_mul(spec_sat_neg(d.x), d.y), lean, steep as int);
    lemma_fx_mul_within(spec_fx_mul(spec_sat_neg(d.y), d.y), lean, steep as int);
}

/// The two tangents lie within `slack` of the axes of flat water.
pub open spec fn is_nearly_flat(sum: WaveSum, slack: int) -> bool {
    &&& SCALE - slack <= sum.tangent.x <= SCALE + slack
    &&& -slack <= sum.tangent.y <= slack
    &&& -slack <= sum.tangent.z <= slack
    &&& -slack <= sum.binormal.x <= slack
    &&& -slack <= sum.binormal.y <= slack
    &&& SCALE - slack <= sum.binormal.z <= SCALE + slack
}

/// A gentle wave tilts the tangents by no more than a tenth.
proof fn lemma_gentle_wave(wave: WaveProperties, position: Vec3, time: i64, sum: WaveSum, slack: int)
    requires
        wave.wf(),
        wave.steepness <= GENTLE,
        0 <= slack <= 2 * GENTLE,
        is_nearly_flat(sum, slack),
    ensures
        is_nearly_flat(wave.applied(position, time, sum), slack + GENTLE),
{
    lemma_wave_slopes(wave, position.x, position.z, time);
}

/// Under three gentle waves the tangents stay within three tenths of the
/// axes of flat water.
pub proof fn lemma_gentle_sea(position: Vec3, time: i64, waves: [WaveProperties; 3])
    requires
        waves[0].wf() && waves[0].steepness <= GENTLE,
        waves[1].wf() && waves[1].steepness <= GENTLE,
        waves[2].wf() && waves[2].steepness <= GENTLE,
    ensures
        is_nearly_flat(spec_wave_sum(position, time, waves), 3 * GENTLE),
{
    let start = calm(position);
    let one = waves[0].applied(position, time, start);
    let two = waves[1].applied(position, time, one);
    lemma_gentle_wave(waves[0], position, time, start, 0);
    lemma_gentle_wave(waves[1], position, time, one, GENTLE as int);
    lemma_gentle_wave(waves[2], position, time, two, 2 * GENTLE);
    lemma_sum_of_waves(position, time, waves);
}

/// The product of two values of at most `a` and `b` in magnitude is at most
/// `a * b` in magnitude.
proof fn lemma_fx_mul_at_most(x: i64, y: i64, a: int, b: int)
    requires
        -a <= x <= a,
        -b <= y <= b,
    ensures
        abs_int(spec_fx_mul(x, y) as int) * SCALE <= a * b,
{
    lemma_mul_div_magnitude(x, y, SCALE);
    assert(abs_int(x as int) * abs_int(y as int) <= a * b) by (nonlinear_arith)
        requires
            0 <= abs_int(x as int) <= a,
            0 <= abs_int(y as int) <= b,
    ;
}

/// A surface whose tangents lie within three tenths of the axes of flat
/// water has a cross product that points up by at least four tenths, with
/// no component over four.
proof fn lemma_cross_points_up(sum: WaveSum)
    requires
        is_nearly_flat(sum, 3 * GENTLE),
    ensures
        sum.binormal.spec_cross(sum.tangent).y >= 4 * GENTLE,
        is_within(sum.binormal.spec_cross(sum.tangent), 4 * SCALE),
{
    let b = sum.binormal;
    let t = sum.tangent;
    let wide = 1_300_000_000int;
    // the height: b.z * t.x - b.x * t.z
    let p = b.z * t.x;
    assert(490_000_000_000_000_000 <= p <= 1_690_000_000_000_000_000) by (nonlinear_arith)
        requires
            p == b.z * t.x,
            700_000_000 <= b.z <= 1_300_000_000,
            700_000_000 <= t.x <= 1_300_000_000,
    ;
    assert(490_000_000 <= p / (SCALE as int) <= 1_690_000_000);
    lemma_fx_mul_at_most(b.x, t.z, 3 * GENTLE, 3 * GENTLE);
    assert((3 * GENTLE) * (3 * GENTLE) == 90_000_000_000_000_000) by (nonlinear_arith)
        requires
            GENTLE == 100_000_000,
    ;
    // the other two
    lemma_fx_mul_at_most(b.y, t.z, wide, wide);
    lemma_fx_mul_at_most(b.z, t.y, wide, wide);
    lemma_fx_mul_at_most(b.x, t.y, wide, wide);
    lemma_fx_mul_at_most(b.y, t.x, wide, wide);
    assert(wide * wide == 1_690_000_000_000_000_000) by (nonlinear_arith)
        requires
            wide == 1_300_000_000,
    ;
}

/// Scaling to unit length does not lose what points up: a vector with no
/// component over four that points up by at least eight billionths keeps a
/// height above nothing.
proof fn lemma_up_is_kept(v: Vec3)
    requires
        is_within(v, 4 * SCALE),
        v.y >= 8,
    ensures
        v.spec_normalize_or(Vec3::spec_unit_y()).y > 0,
{
    lemma_normalize4_unit(v.x, v.y, v.z, 0);
    let k = boost(v.x, v.y, v.z, 0);
    assert(k == SCALE);
    let s = SCALE as int;
    let total = sq_sum(v.x as int, v.y as int, v.z as int, 0);
    assert(0 <= total <= 48 * (s * s)) by (nonlinear_arith)
        requires
            total == v.x * v.x + v.y * v.y + v.z * v.z + 0 * 0,
            -4 * s <= v.x <= 4 * s,
            -4 * s <= v.y <= 4 * s,
            -4 * s <= v.z <= 4 * s,
    ;
    let n = total * (k * k);
    assert(0 <= n <= 48 * (s * s) * (s * s)) by (nonlinear_arith)
        requires
            n == total * (k * k),
            k == s,
            0 <= total <= 48 * (s * s),
    ;
    let root = lemma_isqrt_exists(n as nat) as int;
    assert(root == boosted_length(v.x, v.y, v.z, 0));
    assert(root < 7 * (s * s)) by (nonlinear_arith)
        requires
            root * root <= n,
            n <= 48 * (s * s) * (s * s),
            root >= 0,
            s > 0,
    ;
    let p = v.y * (s * k);
    assert(p >= root) by (nonlinear_arith)
        requires
            p == v.y * (s * k),
            k == s,
            v.y >= 8,
            root < 7 * (s * s),
            s > 0,
    ;
    assert(1 <= p / root <= 4 * (s * s)) by (nonlinear_arith)
        requires
            p >= root,
            root >= s,
            s > 0,
            p == v.y * (s * k),
            k == s,
            v.y <= 4 * s,
    ;
    assert(4 * (s * s) == 4_000_000_000_000_000_000) by (nonlinear_arith)
        requires
            s == 1_000_000_000,
    ;
    assert(unit_component(v.y, k, root as nat) == p / root);
}

/// Under three gentle waves the surface faces up: the normal has a height
/// above nothing at every point and time.
pub proof fn lemma_normal_points_up(position: Vec3, time: i64, waves: [WaveProperties; 3])
    requires
        waves[0].wf() && waves[0].steepness <= GENTLE,
        waves[1].wf() && waves[1].steepness <= GENTLE,
        waves[2].wf() && waves[2].steepness <= GENTLE,
    ensures
        spec_wave_sequence(position, time, waves).normal.y > 0,
{
    lemma_gentle_sea(position, time, waves);
    let sum = spec_wave_sum(position, time, waves);
    lemma_cross_points_up(sum);
    lemma_up_is_kept(sum.binormal.spec_cross(sum.tangent));
}

/// The sea of any weather up to that of an ordinary day faces up
/// everywhere and always.
pub proof fn lemma_ordinary_sea_faces_up(intensity: i64, position: Vec3, time: i64)
    requires
        0 <= intensity <= SCALE,
    ensures
        spec_wave_sequence(position, time, spec_get_waves(intensity)).normal.y > 0,
{
    let waves = spec_get_waves(intensity);
    lemma_fx_mul_within(intensity, STEEPNESS_FACTOR, STEEPNESS_FACTOR as int);
    assert(spec_fx_mul(intensity, STEEPNESS_FACTOR) >= 0);
    lemma_normal_points_up(position, time, waves);
}

/// A wave lifts the surface and never lowers it: its trough lies at the
/// level of the calm sea.
pub proof fn lemma_wave_lifts(wave: WaveProperties, x: i64, z: i64, time: i64)
    requires
        wave.wf(),
    ensures
        wave.amplitude() >= 0,
        wave.offset(x, z, time).y >= 0,
{
    let p = wave.steepness * wave.wavelength;
    assert(p >= 0) by (nonlinear_arith)
        requires
            p == wave.steepness * wave.wavelength,
            wave.steepness >= 0,
            wave.wavelength > 0,
    ;
    assert(p / (TWO_PI as int) >= 0);
    let a = wave.amplitude();
    lemma_sin_cos_unit(wave.phase_turns(x, z, time));
    lemma_fx_mul_shrinks(a, spec_sin_cos_turns(wave.phase_turns(x, z, time)).0);
}

/// The sea never lies under the level of the calm sea.
pub proof fn lemma_height_not_negative(water: Water, point: Vec2, time: i64)
    requires
        water.wf(),
    ensures
        water.spec_height_at_point(point, time) >= 0,
{
    lemma_wave_lifts(water.waves[0], point.x, point.y, time);
    lemma_wave_lifts(water.waves[1], point.x, point.y, time);
    lemma_wave_lifts(water.waves[2], point.x, point.y, time);
}

/// The height and the full sample never disagree.
pub proof fn lemma_height_is_sample_height(water: Water, point: Vec2, time: i64)
    ensures
        water.spec_height_at_point(point, time) == water.spec_wave_data_at_point(
            point,
            time,
        ).position.y,
{
}

} // verus!
