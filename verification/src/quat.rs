//! Rotations as fixed-point quaternions.
use vstd::prelude::*;
use crate::fixed::{
    fx_mul, mul_div, sat_add, sat_neg, sat_sub, spec_fx_mul, spec_mul_div, spec_sat_add,
    spec_sat_neg, spec_sat_sub, SCALE,
};
use crate::trig::{
    acos_turns, lemma_sin_cos_unit, sin_cos_turns, spec_acos_turns, spec_sin_cos_turns,
};
use crate::unit::{is_unit4, lemma_normalize4_unit, normalize4, spec_normalize4};
use crate::vector::Vec3;

verus! {

/// Two full turns in radians: the divisor that takes an angle in radians to
/// half of it in turns.
pub const FOUR_PI: i64 = 12_566_370_614;

/// A quaternion `w + xi + yj + zk`.
#[derive(Clone, Copy, Debug, PartialEq, Eq, Structural)]
pub struct Quat {
    pub x: i64,
    pub y: i64,
    pub z: i64,
    pub w: i64,
}

/// Where something stands and how it is turned.
#[derive(Clone, Copy, Debug, PartialEq, Eq, Structural)]
pub struct Transform {
    pub translation: Vec3,
    pub rotation: Quat,
}

/// Sine and cosine of half of `angle`, an angle in radians.
pub open spec fn spec_half_sin_cos(angle: i64) -> (i64, i64) {
    spec_sin_cos_turns(spec_mul_div(angle, SCALE, FOUR_PI))
}

/// Sine and cosine of half of `angle`, an angle in radians.
#[verifier::when_used_as_spec(spec_half_sin_cos)]
pub fn half_sin_cos(angle: i64) -> (r: (i64, i64))
    ensures
        r == spec_half_sin_cos(angle),
        -SCALE <= r.0 <= SCALE,
        -SCALE <= r.1 <= SCALE,
        is_unit4(r.0 as int, r.1 as int, 0, 0),
{
    sin_cos_turns(mul_div(angle, SCALE, FOUR_PI))
}

impl Quat {
    /// What `identity` returns.
    pub open spec fn spec_identity() -> Quat {
        Quat { x: 0, y: 0, z: 0, w: SCALE }
    }

    /// The rotation that moves nothing.
    #[verifier::when_used_as_spec(spec_identity)]
    pub fn identity() -> (r: Quat)
        ensures
            r == Quat::spec_identity(),
            r.is_unit(),
    {
        Quat { x: 0, y: 0, z: 0, w: SCALE }
    }

    /// The length is within a hundred-thousandth of one.
    pub open spec fn is_unit(self) -> bool {
        is_unit4(self.x as int, self.y as int, self.z as int, self.w as int)
    }

    /// The vector part.
    pub open spec fn spec_axis(self) -> Vec3 {
        Vec3 { x: self.x, y: self.y, z: self.z }
    }

    /// What `times` returns.
    pub open spec fn spec_times(self, rhs: Quat) -> Quat {
        let a = self;
        let b = rhs;
        Quat {
            x: spec_sat_sub(
                spec_sat_add(
                    spec_sat_add(spec_fx_mul(a.w, b.x), spec_fx_mul(a.x, b.w)),
                    spec_fx_mul(a.y, b.z),
                ),
                spec_fx_mul(a.z, b.y),
            ),
            y: spec_sat_add(
                spec_sat_add(
                    spec_sat_sub(spec_fx_mul(a.w, b.y), spec_fx_mul(a.x, b.z)),
                    spec_fx_mul(a.y, b.w),
                ),
                spec_fx_mul(a.z, b.x),
            ),
            z: spec_sat_add(
                spec_sat_sub(
                    spec_sat_add(spec_fx_mul(a.w, b.z), spec_fx_mul(a.x, b.y)),
                    spec_fx_mul(a.y, b.x),
                ),
                spec_fx_mul(a.z, b.w),
            ),
            w: spec_sat_sub(
                spec_sat_sub(
                    spec_sat_sub(spec_fx_mul(a.w, b.w), spec_fx_mul(a.x, b.x)),
                    spec_fx_mul(a.y, b.y),
                ),
                spec_fx_mul(a.z, b.z),
            ),
        }
    }

    /// The Hamilton product: the rotation `rhs` followed by `self`.
    #[verifier::when_used_as_spec(spec_times)]
    pub fn times(self, rhs: Quat) -> (r: Quat)
        ensures
            r == self.spec_times(rhs),
    {
        let a = self;
        let b = rhs;
        Quat {
            x: sat_sub(
                sat_add(sat_add(fx_mul(a.w, b.x), fx_mul(a.x, b.w)), fx_mul(a.y, b.z)),
                fx_mul(a.z, b.y),
            ),
            y: sat_add(
                sat_add(sat_sub(fx_mul(a.w, b.y), fx_mul(a.x, b.z)), fx_mul(a.y, b.w)),
                fx_mul(a.z, b.x),
            ),
            z: sat_add(
                sat_sub(sat_add(fx_mul(a.w, b.z), fx_mul(a.x, b.y)), fx_mul(a.y, b.x)),
                fx_mul(a.z, b.w),
            ),
            w: sat_sub(
                sat_sub(sat_sub(fx_mul(a.w, b.w), fx_mul(a.x, b.x)), fx_mul(a.y, b.y)),
                fx_mul(a.z, b.z),
            ),
        }
    }

    /// What `conjugate` returns.
    pub open spec fn spec_conjugate(self) -> Quat {
        Quat {
            x: spec_sat_neg(self.x),
            y: spec_sat_neg(self.y),
            z: spec_sat_neg(self.z),
            w: self.w,
        }
    }

    /// The opposite rotation, for a unit quaternion.
    #[verifier::when_used_as_spec(spec_conjugate)]
    pub fn conjugate(self) -> (r: Quat)
        ensures
            r == self.spec_conjugate(),
    {
        Quat { x: sat_neg(self.x), y: sat_neg(self.y), z: sat_neg(self.z), w: self.w }
    }

    /// What `rotate` returns.
    pub open spec fn spec_rotate(self, v: Vec3) -> Vec3 {
        let u = self.spec_axis();
        let c = u.spec_cross(v);
        let t = c.spec_plus(c);
        v.spec_plus(t.spec_scale(self.w)).spec_plus(u.spec_cross(t))
    }

    /// The vector `v` turned by this rotation: `v + 2w (u x v) + 2 u x (u x v)`
    /// with `u` the vector part.
    #[verifier::when_used_as_spec(spec_rotate)]
    pub fn rotate(self, v: Vec3) -> (r: Vec3)
        ensures
            r == self.spec_rotate(v),
    {
        let u = Vec3 { x: self.x, y: self.y, z: self.z };
        let c = u.cross(v);
        let t = c.plus(c);
        v.plus(t.scale(self.w)).plus(u.cross(t))
    }

    /// What `normalize` returns.
    pub open spec fn spec_normalize(self) -> Quat {
        match spec_normalize4(self.x, self.y, self.z, self.w) {
            Some(u) => Quat { x: u.0, y: u.1, z: u.2, w: u.3 },
            None => Quat::spec_identity(),
        }
    }

    /// The quaternion scaled to unit length; the identity for the zero
    /// quaternion. The result is a unit quaternion whatever the input.
    #[verifier::when_used_as_spec(spec_normalize)]
    pub fn normalize(self) -> (r: Quat)
        ensures
            r == self.spec_normalize(),
            r.is_unit(),
    {
        match normalize4(self.x, self.y, self.z, self.w) {
            Some(u) => Quat { x: u.0, y: u.1, z: u.2, w: u.3 },
            None => Quat::identity(),
        }
    }

    /// What `from_axis_angle` returns.
    pub open spec fn spec_from_axis_angle(axis: Vec3, angle: i64) -> Quat {
        let sc = spec_half_sin_cos(angle);
        Quat {
            x: spec_fx_mul(axis.x, sc.0),
            y: spec_fx_mul(axis.y, sc.0),
            z: spec_fx_mul(axis.z, sc.0),
            w: sc.1,
        }
    }

    /// The rotation by `angle` radians about `axis`, which the caller gives
    /// at unit length.
    #[verifier::when_used_as_spec(spec_from_axis_angle)]
    pub fn from_axis_angle(axis: Vec3, angle: i64) -> (r: Quat)
        ensures
            r == Quat::spec_from_axis_angle(axis, angle),
    {
        let (s, c) = half_sin_cos(angle);
        Quat { x: fx_mul(axis.x, s), y: fx_mul(axis.y, s), z: fx_mul(axis.z, s), w: c }
    }

    /// What `from_rotation_x` returns.
    pub open spec fn spec_from_rotation_x(angle: i64) -> Quat {
        let sc = spec_half_sin_cos(angle);
        Quat { x: sc.0, y: 0, z: 0, w: sc.1 }
    }

    /// The rotation by `angle` radians about the x axis.
    #[verifier::when_used_as_spec(spec_from_rotation_x)]
    pub fn from_rotation_x(angle: i64) -> (r: Quat)
        ensures
            r == Quat::spec_from_rotation_x(angle),
            r.is_unit(),
    {
        let (s, c) = half_sin_cos(angle);
        proof {
            lemma_unit_places(s as int, c as int);
        }
        Quat { x: s, y: 0, z: 0, w: c }
    }

    /// What `from_rotation_y` returns.
    pub open spec fn spec_from_rotation_y(angle: i64) -> Quat {
        let sc = spec_half_sin_cos(angle);
        Quat { x: 0, y: sc.0, z: 0, w: sc.1 }
    }

    /// The rotation by `angle` radians about the vertical: a heading.
    #[verifier::when_used_as_spec(spec_from_rotation_y)]
    pub fn from_rotation_y(angle: i64) -> (r: Quat)
        ensures
            r == Quat::spec_from_rotation_y(angle),
            r.is_unit(),
    {
        let (s, c) = half_sin_cos(angle);
        proof {
            lemma_unit_places(s as int, c as int);
        }
        Quat { x: 0, y: s, z: 0, w: c }
    }

    /// What `from_rotation_z` returns.
    pub open spec fn spec_from_rotation_z(angle: i64) -> Quat {
        let sc = spec_half_sin_cos(angle);
        Quat { x: 0, y: 0, z: sc.0, w: sc.1 }
    }

    /// The rotation by `angle` radians about the z axis.
    #[verifier::when_used_as_spec(spec_from_rotation_z)]
    pub fn from_rotation_z(angle: i64) -> (r: Quat)
        ensures
            r == Quat::spec_from_rotation_z(angle),
            r.is_unit(),
    {
        let (s, c) = half_sin_cos(angle);
        proof {
            lemma_unit_places(s as int, c as int);
        }
        Quat { x: 0, y: 0, z: s, w: c }
    }
}

/// Two rotations whose inner product exceeds this are blended along the
/// straight line between them.
pub const NEARLY_ALIGNED: i64 = 999_500_000;

impl Quat {
    /// What `dot` returns.
    pub open spec fn spec_dot(self, other: Quat) -> i64 {
        spec_sat_add(
            spec_sat_add(
                spec_sat_add(spec_fx_mul(self.x, other.x), spec_fx_mul(self.y, other.y)),
                spec_fx_mul(self.z, other.z),
            ),
            spec_fx_mul(self.w, other.w),
        )
    }

    /// The inner product of the two as vectors of four.
    #[verifier::when_used_as_spec(spec_dot)]
    pub fn dot(self, other: Quat) -> (r: i64)
        ensures
            r == self.spec_dot(other),
    {
        sat_add(
            sat_add(
                sat_add(fx_mul(self.x, other.x), fx_mul(self.y, other.y)),
                fx_mul(self.z, other.z),
            ),
            fx_mul(self.w, other.w),
        )
    }

    /// What `negated` returns.
    pub open spec fn spec_negated(self) -> Quat {
        Quat {
            x: spec_sat_neg(self.x),
            y: spec_sat_neg(self.y),
            z: spec_sat_neg(self.z),
            w: spec_sat_neg(self.w),
        }
    }

    /// The same rotation with every sign changed.
    #[verifier::when_used_as_spec(spec_negated)]
    pub fn negated(self) -> (r: Quat)
        ensures
            r == self.spec_negated(),
    {
        Quat { x: sat_neg(self.x), y: sat_neg(self.y), z: sat_neg(self.z), w: sat_neg(self.w) }
    }

    /// `self * p + other * q`, component by component.
    pub open spec fn spec_blend(self, p: i64, other: Quat, q: i64) -> Quat {
        Quat {
            x: spec_sat_add(spec_fx_mul(self.x, p), spec_fx_mul(other.x, q)),
            y: spec_sat_add(spec_fx_mul(self.y, p), spec_fx_mul(other.y, q)),
            z: spec_sat_add(spec_fx_mul(self.z, p), spec_fx_mul(other.z, q)),
            w: spec_sat_add(spec_fx_mul(self.w, p), spec_fx_mul(other.w, q)),
        }
    }

    /// `self * p + other * q`, component by component.
    #[verifier::when_used_as_spec(spec_blend)]
    pub fn blend(self, p: i64, other: Quat, q: i64) -> (r: Quat)
        ensures
            r == self.spec_blend(p, other, q),
    {
        Quat {
            x: sat_add(fx_mul(self.x, p), fx_mul(other.x, q)),
            y: sat_add(fx_mul(self.y, p), fx_mul(other.y, q)),
            z: sat_add(fx_mul(self.z, p), fx_mul(other.z, q)),
            w: sat_add(fx_mul(self.w, p), fx_mul(other.w, q)),
        }
    }

    /// What `slerp` returns.
    pub open spec fn spec_slerp(self, end: Quat, t: i64) -> Quat {
        let d0 = self.spec_dot(end);
        let near = if d0 < 0 {
            end.spec_negated()
        } else {
            end
        };
        let d = if d0 < 0 {
            spec_sat_neg(d0)
        } else {
            d0
        };
        if d > NEARLY_ALIGNED {
            self.spec_blend(spec_sat_sub(SCALE, t), near, t).spec_normalize()
        } else {
            let theta = spec_acos_turns(d);
            self.spec_blend(
                spec_sin_cos_turns(spec_fx_mul(theta, spec_sat_sub(SCALE, t))).0,
                near,
                spec_sin_cos_turns(spec_fx_mul(theta, t)).0,
            ).spec_normalize()
        }
    }

    /// The rotation a share `t` of the way from `self` to `end` along the
    /// shorter great arc.
    ///
    /// With `theta` the angle between the two, the result lies along
    /// `self * sin((1 - t) theta) + end * sin(t theta)`; where the two are
    /// nearly aligned it lies along `self * (1 - t) + end * t`. Either way
    /// it is scaled to unit length, so the result is a unit quaternion.
    #[verifier::when_used_as_spec(spec_slerp)]
    pub fn slerp(self, end: Quat, t: i64) -> (r: Quat)
        ensures
            r == self.spec_slerp(end, t),
            r.is_unit(),
    {
        let d0 = self.dot(end);
        let near = if d0 < 0 {
            end.negated()
        } else {
            end
        };
        let d = if d0 < 0 {
            sat_neg(d0)
        } else {
            d0
        };
        if d > NEARLY_ALIGNED {
            self.blend(sat_sub(SCALE, t), near, t).normalize()
        } else {
            let theta = acos_turns(d);
            let (from_share, _) = sin_cos_turns(fx_mul(theta, sat_sub(SCALE, t)));
            let (to_share, _) = sin_cos_turns(fx_mul(theta, t));
            self.blend(from_share, near, to_share).normalize()
        }
    }
}

/// Scaling to unit length gives a unit quaternion, whatever went in.
pub proof fn lemma_normalize_unit(q: Quat)
    ensures
        q.spec_normalize().is_unit(),
{
    if !(q.x == 0 && q.y == 0 && q.z == 0 && q.w == 0) {
        lemma_normalize4_unit(q.x, q.y, q.z, q.w);
    }
}

/// A turn about the vertical is a unit quaternion.
pub proof fn lemma_rotation_y_unit(angle: i64)
    ensures
        Quat::spec_from_rotation_y(angle).is_unit(),
{
    let turns = spec_mul_div(angle, SCALE, FOUR_PI);
    lemma_sin_cos_unit(turns);
    lemma_unit_places(spec_sin_cos_turns(turns).0 as int, spec_sin_cos_turns(turns).1 as int);
}

/// A rotation between two others is a unit quaternion.
pub proof fn lemma_slerp_unit(from: Quat, to: Quat, t: i64)
    ensures
        from.spec_slerp(to, t).is_unit(),
{
    let d0 = from.spec_dot(to);
    let near = if d0 < 0 {
        to.spec_negated()
    } else {
        to
    };
    let d = if d0 < 0 {
        spec_sat_neg(d0)
    } else {
        d0
    };
    if d > NEARLY_ALIGNED {
        lemma_normalize_unit(from.spec_blend(spec_sat_sub(SCALE, t), near, t));
    } else {
        let theta = spec_acos_turns(d);
        lemma_normalize_unit(
            from.spec_blend(
                spec_sin_cos_turns(spec_fx_mul(theta, spec_sat_sub(SCALE, t))).0,
                near,
                spec_sin_cos_turns(spec_fx_mul(theta, t)).0,
            ),
        );
    }
}

/// A unit pair stays unit wherever its two numbers stand among four.
proof fn lemma_unit_places(s: int, c: int)
    requires
        is_unit4(s, c, 0, 0),
    ensures
        is_unit4(s, 0, 0, c),
        is_unit4(0, s, 0, c),
        is_unit4(0, 0, s, c),
{
}

} // verus!
