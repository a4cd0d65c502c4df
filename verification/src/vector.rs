//! Vectors of two, three and four fixed-point components.
use vstd::prelude::*;
use crate::fixed::{
    fx_mul, isqrt, mul_div, narrow, sat_add, sat_sub, saturate, spec_fx_mul, spec_isqrt,
    spec_mul_div, spec_sat_add, spec_sat_sub, SCALE,
};
use crate::unit::{is_unit4, magnitude, normalize4, spec_normalize4, sq_sum, square};

verus! {

/// A point or direction in the horizontal plane.
#[derive(Clone, Copy, Debug, PartialEq, Eq, Structural)]
pub struct Vec2 {
    pub x: i64,
    pub y: i64,
}

/// A point, displacement or direction in space. `y` points up.
#[derive(Clone, Copy, Debug, PartialEq, Eq, Structural)]
pub struct Vec3 {
    pub x: i64,
    pub y: i64,
    pub z: i64,
}

/// Four numbers side by side, as a renderer takes them.
#[derive(Clone, Copy, Debug, PartialEq, Eq, Structural)]
pub struct Vec4 {
    pub x: i64,
    pub y: i64,
    pub z: i64,
    pub w: i64,
}

impl Vec2 {
    /// What `dot` returns.
    pub open spec fn spec_dot(self, other: Vec2) -> i64 {
        spec_sat_add(spec_fx_mul(self.x, other.x), spec_fx_mul(self.y, other.y))
    }

    /// The inner product.
    #[verifier::when_used_as_spec(spec_dot)]
    pub fn dot(self, other: Vec2) -> (r: i64)
        ensures
            r == self.spec_dot(other),
    {
        sat_add(fx_mul(self.x, other.x), fx_mul(self.y, other.y))
    }

    /// The length is within a hundred-thousandth of one.
    pub open spec fn is_unit(self) -> bool {
        is_unit4(self.x as int, self.y as int, 0, 0)
    }

    /// What `normalize` returns.
    pub open spec fn spec_normalize(self) -> Option<Vec2> {
        match spec_normalize4(self.x, self.y, 0, 0) {
            Some(u) => Some(Vec2 { x: u.0, y: u.1 }),
            None => None,
        }
    }

    /// The vector scaled to unit length; `None` for the zero vector.
    #[verifier::when_used_as_spec(spec_normalize)]
    pub fn normalize(self) -> (r: Option<Vec2>)
        ensures
            r == self.spec_normalize(),
            r is None <==> (self.x == 0 && self.y == 0),
            r matches Some(u) ==> u.is_unit(),
    {
        match normalize4(self.x, self.y, 0, 0) {
            Some(u) => Some(Vec2 { x: u.0, y: u.1 }),
            None => None,
        }
    }
}

impl Vec3 {
    /// What `zero` returns.
    pub open spec fn spec_zero() -> Vec3 {
        Vec3 { x: 0, y: 0, z: 0 }
    }

    /// The vector of no length.
    #[verifier::when_used_as_spec(spec_zero)]
    pub fn zero() -> (r: Vec3)
        ensures
            r == Vec3::spec_zero(),
    {
        Vec3 { x: 0, y: 0, z: 0 }
    }

    /// What `unit_x` returns.
    pub open spec fn spec_unit_x() -> Vec3 {
        Vec3 { x: SCALE, y: 0, z: 0 }
    }

    /// One along x.
    #[verifier::when_used_as_spec(spec_unit_x)]
    pub fn unit_x() -> (r: Vec3)
        ensures
            r == Vec3::spec_unit_x(),
    {
        Vec3 { x: SCALE, y: 0, z: 0 }
    }

    /// What `unit_y` returns.
    pub open spec fn spec_unit_y() -> Vec3 {
        Vec3 { x: 0, y: SCALE, z: 0 }
    }

    /// World up.
    #[verifier::when_used_as_spec(spec_unit_y)]
    pub fn unit_y() -> (r: Vec3)
        ensures
            r == Vec3::spec_unit_y(),
    {
        Vec3 { x: 0, y: SCALE, z: 0 }
    }

    /// What `unit_z` returns.
    pub open spec fn spec_unit_z() -> Vec3 {
        Vec3 { x: 0, y: 0, z: SCALE }
    }

    /// One along z.
    #[verifier::when_used_as_spec(spec_unit_z)]
    pub fn unit_z() -> (r: Vec3)
        ensures
            r == Vec3::spec_unit_z(),
    {
        Vec3 { x: 0, y: 0, z: SCALE }
    }

    /// What `plus` returns.
    pub open spec fn spec_plus(self, other: Vec3) -> Vec3 {
        Vec3 {
            x: spec_sat_add(self.x, other.x),
            y: spec_sat_add(self.y, other.y),
            z: spec_sat_add(self.z, other.z),
        }
    }

    /// The sum, component by component.
    #[verifier::when_used_as_spec(spec_plus)]
    pub fn plus(self, other: Vec3) -> (r: Vec3)
        ensures
            r == self.spec_plus(other),
    {
        Vec3 {
            x: sat_add(self.x, other.x),
            y: sat_add(self.y, other.y),
            z: sat_add(self.z, other.z),
        }
    }

    /// What `minus` returns.
    pub open spec fn spec_minus(self, other: Vec3) -> Vec3 {
        Vec3 {
            x: spec_sat_sub(self.x, other.x),
            y: spec_sat_sub(self.y, other.y),
            z: spec_sat_sub(self.z, other.z),
        }
    }

    /// The difference, component by component.
    #[verifier::when_used_as_spec(spec_minus)]
    pub fn minus(self, other: Vec3) -> (r: Vec3)
        ensures
            r == self.spec_minus(other),
    {
        Vec3 {
            x: sat_sub(self.x, other.x),
            y: sat_sub(self.y, other.y),
            z: sat_sub(self.z, other.z),
        }
    }

    /// What `scale` returns.
    pub open spec fn spec_scale(self, k: i64) -> Vec3 {
        Vec3 { x: spec_fx_mul(self.x, k), y: spec_fx_mul(self.y, k), z: spec_fx_mul(self.z, k) }
    }

    /// Every component multiplied by `k`.
    #[verifier::when_used_as_spec(spec_scale)]
    pub fn scale(self, k: i64) -> (r: Vec3)
        ensures
            r == self.spec_scale(k),
    {
        Vec3 { x: fx_mul(self.x, k), y: fx_mul(self.y, k), z: fx_mul(self.z, k) }
    }

    /// What `divided_by` returns.
    pub open spec fn spec_divided_by(self, k: i64) -> Vec3 {
        Vec3 {
            x: spec_mul_div(self.x, SCALE, k),
            y: spec_mul_div(self.y, SCALE, k),
            z: spec_mul_div(self.z, SCALE, k),
        }
    }

    /// Every component divided by a positive `k`.
    #[verifier::when_used_as_spec(spec_divided_by)]
    pub fn divided_by(self, k: i64) -> (r: Vec3)
        requires
            k > 0,
        ensures
            r == self.spec_divided_by(k),
    {
        Vec3 { x: mul_div(self.x, SCALE, k), y: mul_div(self.y, SCALE, k), z: mul_div(self.z, SCALE, k) }
    }

    /// What `dot` returns.
    pub open spec fn spec_dot(self, other: Vec3) -> i64 {
        spec_sat_add(
            spec_sat_add(spec_fx_mul(self.x, other.x), spec_fx_mul(self.y, other.y)),
            spec_fx_mul(self.z, other.z),
        )
    }

    /// The inner product.
    #[verifier::when_used_as_spec(spec_dot)]
    pub fn dot(self, other: Vec3) -> (r: i64)
        ensures
            r == self.spec_dot(other),
    {
        sat_add(
            sat_add(fx_mul(self.x, other.x), fx_mul(self.y, other.y)),
            fx_mul(self.z, other.z),
        )
    }

    /// What `cross` returns.
    pub open spec fn spec_cross(self, other: Vec3) -> Vec3 {
        Vec3 {
            x: spec_sat_sub(spec_fx_mul(self.y, other.z), spec_fx_mul(self.z, other.y)),
            y: spec_sat_sub(spec_fx_mul(self.z, other.x), spec_fx_mul(self.x, other.z)),
            z: spec_sat_sub(spec_fx_mul(self.x, other.y), spec_fx_mul(self.y, other.x)),
        }
    }

    /// The cross product, right-handed.
    #[verifier::when_used_as_spec(spec_cross)]
    pub fn cross(self, other: Vec3) -> (r: Vec3)
        ensures
            r == self.spec_cross(other),
    {
        Vec3 {
            x: sat_sub(fx_mul(self.y, other.z), fx_mul(self.z, other.y)),
            y: sat_sub(fx_mul(self.z, other.x), fx_mul(self.x, other.z)),
            z: sat_sub(fx_mul(self.x, other.y), fx_mul(self.y, other.x)),
        }
    }

    /// The squared length in raw units, each component first brought into
    /// range.
    pub open spec fn raw_length_squared(self) -> int {
        sq_sum(
            saturate(self.x as int) as int,
            saturate(self.y as int) as int,
            saturate(self.z as int) as int,
            0,
        )
    }

    /// What `length` returns.
    pub open spec fn spec_length(self) -> i64 {
        saturate(spec_isqrt(self.raw_length_squared() as nat) as int)
    }

    /// The length, rounded down.
    #[verifier::when_used_as_spec(spec_length)]
    pub fn length(self) -> (r: i64)
        ensures
            r == self.spec_length(),
            r >= 0,
            r == 0 <==> (self.x == 0 && self.y == 0 && self.z == 0),
    {
        let mx = magnitude(self.x);
        let my = magnitude(self.y);
        let mz = magnitude(self.z);
        let n: u128 = square(mx) + square(my) + square(mz);
        proof {
            assert(n == self.raw_length_squared()) by (nonlinear_arith)
                requires
                    n == mx * mx + my * my + mz * mz,
                    mx == crate::unit::abs_int(saturate(self.x as int) as int),
                    my == crate::unit::abs_int(saturate(self.y as int) as int),
                    mz == crate::unit::abs_int(saturate(self.z as int) as int),
                    self.raw_length_squared() == saturate(self.x as int) * saturate(
                        self.x as int,
                    ) + saturate(self.y as int) * saturate(self.y as int) + saturate(
                        self.z as int,
                    ) * saturate(self.z as int) + 0 * 0,
            ;
        }
        let root: u64 = isqrt(n);
        proof {
            if n > 0 && root == 0 {
                assert((root + 1) * (root + 1) == 1) by (nonlinear_arith)
                    requires
                        root == 0,
                ;
            }
            if n == 0 {
                if root > 0 {
                    assert(root * root > 0) by (nonlinear_arith)
                        requires
                            root > 0,
                    ;
                }
                assert(mx * mx >= 0 && my * my >= 0 && mz * mz >= 0) by (nonlinear_arith);
                if mx > 0 {
                    assert(mx * mx > 0) by (nonlinear_arith)
                        requires
                            mx > 0,
                    ;
                }
                if my > 0 {
                    assert(my * my > 0) by (nonlinear_arith)
                        requires
                            my > 0,
                    ;
                }
                if mz > 0 {
                    assert(mz * mz > 0) by (nonlinear_arith)
                        requires
                            mz > 0,
                    ;
                }
            } else {
                assert(mx > 0 || my > 0 || mz > 0) by {
                    if mx == 0 && my == 0 && mz == 0 {
                        assert(mx * mx == 0 && my * my == 0 && mz * mz == 0) by (nonlinear_arith)
                            requires
                                mx == 0,
                                my == 0,
                                mz == 0,
                        ;
                    }
                }
            }
        }
        narrow(root as i128)
    }

    /// What `distance` returns.
    pub open spec fn spec_distance(self, other: Vec3) -> i64 {
        self.spec_minus(other).spec_length()
    }

    /// The distance between two points.
    #[verifier::when_used_as_spec(spec_distance)]
    pub fn distance(self, other: Vec3) -> (r: i64)
        ensures
            r == self.spec_distance(other),
            r >= 0,
    {
        self.minus(other).length()
    }

    /// The length is within a hundred-thousandth of one.
    pub open spec fn is_unit(self) -> bool {
        is_unit4(self.x as int, self.y as int, self.z as int, 0)
    }

    /// What `normalize_or` returns.
    pub open spec fn spec_normalize_or(self, fallback: Vec3) -> Vec3 {
        match spec_normalize4(self.x, self.y, self.z, 0) {
            Some(u) => Vec3 { x: u.0, y: u.1, z: u.2 },
            None => fallback,
        }
    }

    /// The vector scaled to unit length, or `fallback` for the zero vector.
    #[verifier::when_used_as_spec(spec_normalize_or)]
    pub fn normalize_or(self, fallback: Vec3) -> (r: Vec3)
        ensures
            r == self.spec_normalize_or(fallback),
            (self.x == 0 && self.y == 0 && self.z == 0) ==> r == fallback,
            !(self.x == 0 && self.y == 0 && self.z == 0) ==> r.is_unit(),
    {
        match normalize4(self.x, self.y, self.z, 0) {
            Some(u) => Vec3 { x: u.0, y: u.1, z: u.2 },
            None => fallback,
        }
    }
}

} // verus!
