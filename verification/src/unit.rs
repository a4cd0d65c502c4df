//! Scaling four numbers to unit length.
//!
//! Vectors and quaternions are both normalised here, a vector with its unused
//! components at zero. The result has a length within a hundred-thousandth of one
//! whatever the size of the input, which is what keeps a rotation that is
//! composed thousands of times from drifting.
use vstd::prelude::*;
use crate::fixed::{
    isqrt, lemma_isqrt_at_least, lemma_isqrt_exists, saturate, spec_isqrt, spec_mul_div,
    trunc_div, LIMIT, SCALE,
};

verus! {

/// How far from one a length may lie and still count as unit: a
/// hundred-thousandth.
pub const TOLERANCE: i64 = 10_000;

/// Below this magnitude the components are scaled up before the root is
/// taken, so that a short vector loses no precision.
pub const SMALL: i64 = 0x1_0000_0000;

/// The magnitude of a number.
pub open spec fn abs_int(a: int) -> int {
    if a >= 0 {
        a
    } else {
        -a
    }
}

/// The larger of two numbers.
pub open spec fn max_int(a: int, b: int) -> int {
    if a >= b {
        a
    } else {
        b
    }
}

/// The squared length of `(a, b, c, d)`.
pub open spec fn sq_sum(a: int, b: int, c: int, d: int) -> int {
    a * a + b * b + c * c + d * d
}

/// The length of `(a, b, c, d)` is within a hundred-thousandth of one.
pub open spec fn is_unit4(a: int, b: int, c: int, d: int) -> bool {
    (SCALE - TOLERANCE) * (SCALE - TOLERANCE) <= sq_sum(a, b, c, d) <= (SCALE + TOLERANCE) * (
        SCALE + TOLERANCE)
}

/// The largest magnitude among the four, each first brought into range.
pub open spec fn max_abs4(a: i64, b: i64, c: i64, d: i64) -> int {
    max_int(
        max_int(abs_int(saturate(a as int) as int), abs_int(saturate(b as int) as int)),
        max_int(abs_int(saturate(c as int) as int), abs_int(saturate(d as int) as int)),
    )
}

/// The factor by which the components are scaled before the root is taken.
pub open spec fn boost(a: i64, b: i64, c: i64, d: i64) -> int {
    if max_abs4(a, b, c, d) < SMALL {
        SCALE as int
    } else {
        1
    }
}

/// The length of the boosted vector, rounded down.
pub open spec fn boosted_length(a: i64, b: i64, c: i64, d: i64) -> nat {
    let k = boost(a, b, c, d);
    spec_isqrt(
        (sq_sum(
            saturate(a as int) as int,
            saturate(b as int) as int,
            saturate(c as int) as int,
            saturate(d as int) as int,
        ) * (k * k)) as nat,
    )
}

/// One component of the normalised vector.
pub open spec fn unit_component(x: i64, k: int, root: nat) -> i64 {
    trunc_div(saturate(x as int) * (SCALE * k), root as int) as i64
}

/// `(a, b, c, d)` scaled to unit length, or `None` if all four are zero.
pub open spec fn spec_normalize4(a: i64, b: i64, c: i64, d: i64) -> Option<(i64, i64, i64, i64)> {
    if max_abs4(a, b, c, d) == 0 {
        None
    } else {
        let k = boost(a, b, c, d);
        let root = boosted_length(a, b, c, d);
        Some(
            (
                unit_component(a, k, root),
                unit_component(b, k, root),
                unit_component(c, k, root),
                unit_component(d, k, root),
            ),
        )
    }
}

/// A quotient rounded toward zero, times the divisor, falls short of the
/// dividend's magnitude by less than the divisor.
pub proof fn lemma_trunc_div_bounds(p: int, b: int)
    requires
        b > 0,
    ensures
        abs_int(trunc_div(p, b)) * b <= abs_int(p) < (abs_int(trunc_div(p, b)) + 1) * b,
        abs_int(trunc_div(p, b)) == abs_int(p) / b,
{
    let v = abs_int(p);
    assert((v / b) * b <= v < (v / b + 1) * b && v / b >= 0) by (nonlinear_arith)
        requires
            v >= 0,
            b > 0,
    ;
}

/// A quotient of a product is no larger than the product allows, and lies
/// on the side of zero that the signs of the factors give.
pub proof fn lemma_mul_div_magnitude(a: i64, b: i64, c: i64)
    requires
        c > 0,
    ensures
        abs_int(spec_mul_div(a, b, c) as int) * c <= abs_int(a as int) * abs_int(b as int),
        (a >= 0 && b >= 0) || (a <= 0 && b <= 0) ==> spec_mul_div(a, b, c) >= 0,
        (a >= 0 && b <= 0) || (a <= 0 && b >= 0) ==> spec_mul_div(a, b, c) <= 0,
{
    let p = a * b;
    let m = abs_int(a as int) * abs_int(b as int);
    assert(abs_int(p) == m && ((a >= 0 && b >= 0) || (a <= 0 && b <= 0) ==> p >= 0) && ((a >= 0
        && b <= 0) || (a <= 0 && b >= 0) ==> p <= 0)) by (nonlinear_arith)
        requires
            p == a * b,
            m == abs_int(a as int) * abs_int(b as int),
    ;
    lemma_trunc_div_bounds(p, c as int);
    let q = trunc_div(p, c as int);
    assert(p >= 0 ==> p / (c as int) >= 0) by (nonlinear_arith)
        requires
            c > 0,
    ;
    assert(p <= 0 ==> (-p) / (c as int) >= 0) by (nonlinear_arith)
        requires
            c > 0,
    ;
    let r = spec_mul_div(a, b, c) as int;
    assert(abs_int(r) <= abs_int(q));
    assert(abs_int(r) * c <= abs_int(q) * c) by (nonlinear_arith)
        requires
            0 <= abs_int(r) <= abs_int(q),
            c > 0,
    ;
}

proof fn lemma_square_le(x: int, y: int)
    requires
        0 <= x <= y,
    ensures
        x * x <= y * y,
{
    assert(x * x <= y * y) by (nonlinear_arith)
        requires
            0 <= x <= y,
    ;
}

proof fn lemma_square_lt(x: int, y: int)
    requires
        0 <= x < y,
    ensures
        x * x < y * y,
{
    assert(x * x < y * y) by (nonlinear_arith)
        requires
            0 <= x < y,
    ;
}

/// For one component: the squares of `u * root` and `(u + 1) * root` bracket
/// the square of `v`.
proof fn lemma_component_bracket(v: int, u: int, root: int)
    requires
        root > 0,
        0 <= u,
        u * root <= v < (u + 1) * root,
    ensures
        (u * u) * (root * root) <= v * v,
        v * v < ((u + 1) * (u + 1)) * (root * root),
{
    assert(u * root >= 0) by (nonlinear_arith)
        requires
            u >= 0,
            root > 0,
    ;
    lemma_square_le(u * root, v);
    lemma_square_lt(v, (u + 1) * root);
    assert((u * root) * (u * root) == (u * u) * (root * root)) by (nonlinear_arith);
    assert(((u + 1) * root) * ((u + 1) * root) == ((u + 1) * (u + 1)) * (root * root))
        by (nonlinear_arith);
}

/// Four numbers divided by the rounded-down root of their squared length
/// have unit length, as long as that root is at least one.
///
/// `v1..v4` are the magnitudes of the dividends, whose squares add up to
/// `SCALE * SCALE * m`; `root` is the rounded-down root of `m`; `u1..u4` are
/// the magnitudes of the quotients.
pub proof fn lemma_quotients_unit(
    v1: int,
    v2: int,
    v3: int,
    v4: int,
    m: int,
    root: int,
    u1: int,
    u2: int,
    u3: int,
    u4: int,
)
    requires
        root >= SCALE,
        root * root <= m < (root + 1) * (root + 1),
        v1 * v1 + v2 * v2 + v3 * v3 + v4 * v4 == (SCALE * SCALE) * m,
        0 <= u1 && u1 * root <= v1 < (u1 + 1) * root,
        0 <= u2 && u2 * root <= v2 < (u2 + 1) * root,
        0 <= u3 && u3 * root <= v3 < (u3 + 1) * root,
        0 <= u4 && u4 * root <= v4 < (u4 + 1) * root,
    ensures
        is_unit4(u1, u2, u3, u4),
        u1 <= SCALE,
        u2 <= SCALE,
        u3 <= SCALE,
        u4 <= SCALE,
{
    let s = SCALE as int;
    let rr = root * root;
    let q = u1 * u1 + u2 * u2 + u3 * u3 + u4 * u4;
    let q1 = (u1 + 1) * (u1 + 1) + (u2 + 1) * (u2 + 1) + (u3 + 1) * (u3 + 1) + (u4 + 1) * (u4
        + 1);
    lemma_component_bracket(v1, u1, root);
    lemma_component_bracket(v2, u2, root);
    lemma_component_bracket(v3, u3, root);
    lemma_component_bracket(v4, u4, root);
    let vv = v1 * v1 + v2 * v2 + v3 * v3 + v4 * v4;
    assert(q * rr == (u1 * u1) * rr + (u2 * u2) * rr + (u3 * u3) * rr + (u4 * u4) * rr)
        by (nonlinear_arith)
        requires
            q == u1 * u1 + u2 * u2 + u3 * u3 + u4 * u4,
    ;
    assert(q1 * rr == ((u1 + 1) * (u1 + 1)) * rr + ((u2 + 1) * (u2 + 1)) * rr + ((u3 + 1) * (u3
        + 1)) * rr + ((u4 + 1) * (u4 + 1)) * rr) by (nonlinear_arith)
        requires
            q1 == (u1 + 1) * (u1 + 1) + (u2 + 1) * (u2 + 1) + (u3 + 1) * (u3 + 1) + (u4 + 1) * (
            u4 + 1),
    ;
    assert(q * rr <= vv < q1 * rr);
    // from above: q * rr <= s*s*m < s*s*(root+1)^2 <= (s+1)^2 * rr
    assert(q < (s + 1) * (s + 1)) by (nonlinear_arith)
        requires
            q * rr <= (s * s) * m,
            m < (root + 1) * (root + 1),
            rr == root * root,
            root >= s,
            s > 0,
    ;
    // from below: s*s*rr <= s*s*m < q1 * rr
    assert(s * s < q1) by (nonlinear_arith)
        requires
            (s * s) * m < q1 * rr,
            rr <= m,
            rr == root * root,
            root >= s,
            s > 0,
    ;
    // each quotient is at most one
    assert(u1 <= s) by (nonlinear_arith)
        requires
            u1 >= 0,
            u1 * u1 <= q,
            q < (s + 1) * (s + 1),
            s > 0,
    ;
    assert(u2 <= s) by (nonlinear_arith)
        requires
            u2 >= 0,
            u2 * u2 <= q,
            q < (s + 1) * (s + 1),
            s > 0,
    ;
    assert(u3 <= s) by (nonlinear_arith)
        requires
            u3 >= 0,
            u3 * u3 <= q,
            q < (s + 1) * (s + 1),
            s > 0,
    ;
    assert(u4 <= s) by (nonlinear_arith)
        requires
            u4 >= 0,
            u4 * u4 <= q,
            q < (s + 1) * (s + 1),
            s > 0,
    ;
    assert(q1 == q + 2 * (u1 + u2 + u3 + u4) + 4) by (nonlinear_arith)
        requires
            q == u1 * u1 + u2 * u2 + u3 * u3 + u4 * u4,
            q1 == (u1 + 1) * (u1 + 1) + (u2 + 1) * (u2 + 1) + (u3 + 1) * (u3 + 1) + (u4 + 1) * (
            u4 + 1),
    ;
    assert(s == 1_000_000_000);
    assert((s + 1) * (s + 1) <= (s + 10_000) * (s + 10_000));
    assert((s - 10_000) * (s - 10_000) == s * s - 20_000 * s + 100_000_000);
    assert(s * s == 1_000_000_000_000_000_000);
}

/// The magnitude of a component once it is brought into range.
pub(crate) fn magnitude(x: i64) -> (r: u128)
    ensures
        r == abs_int(saturate(x as int) as int),
        r <= LIMIT,
{
    if x == i64::MIN {
        LIMIT as u128
    } else if x < 0 {
        (-x) as u128
    } else {
        x as u128
    }
}

pub(crate) fn square(x: u128) -> (r: u128)
    requires
        x <= LIMIT,
    ensures
        r == x * x,
        r <= 0x3fff_ffff_ffff_ffff_0000_0000_0000_0001,
        x < SMALL ==> r < 0x1_0000_0000_0000_0000,
{
    assert(x * x <= 0x3fff_ffff_ffff_ffff_0000_0000_0000_0001) by (nonlinear_arith)
        requires
            0 <= x <= 0x7fff_ffff_ffff_ffff,
    ;
    if x < SMALL as u128 {
        assert(x * x < 0x1_0000_0000_0000_0000) by (nonlinear_arith)
            requires
                0 <= x < 0x1_0000_0000,
        ;
    }
    x * x
}

/// One component divided by the root.
fn scaled_quotient(x: i64, factor: i128, root: u64) -> (r: i64)
    requires
        root >= SCALE,
        factor == SCALE || factor == SCALE * SCALE,
        factor == SCALE * SCALE ==> abs_int(saturate(x as int) as int) < SMALL,
        abs_int(saturate(x as int) as int) * factor <= SCALE * root,
    ensures
        r == trunc_div(saturate(x as int) * factor, root as int),
{
    let xs: i128 = if x == i64::MIN {
        -(LIMIT as i128)
    } else {
        x as i128
    };
    assert(-0x7fff_ffff_ffff_ffff * 1_000_000_000 <= xs * factor <= 0x7fff_ffff_ffff_ffff
        * 1_000_000_000) by (nonlinear_arith)
        requires
            (-0x7fff_ffff_ffff_ffff <= xs <= 0x7fff_ffff_ffff_ffff && factor == 1_000_000_000) || (
            -0x1_0000_0000 < xs < 0x1_0000_0000 && factor == 1_000_000_000_000_000_000),
    ;
    let p: i128 = xs * factor;
    let q: i128 = p / (root as i128);
    proof {
        lemma_trunc_div_bounds(p as int, root as int);
        let v = abs_int(xs as int);
        assert(abs_int(p as int) == v * factor) by (nonlinear_arith)
            requires
                p == xs * factor,
                factor > 0,
                v == abs_int(xs as int),
        ;
        let u = abs_int(q as int);
        assert(u <= SCALE) by (nonlinear_arith)
            requires
                u * root <= v * factor,
                v * factor <= SCALE * root,
                root > 0,
                u >= 0,
        ;
    }
    q as i64
}

/// `u` is not on the other side of zero from `x`.
pub open spec fn same_signs(x: i64, u: i64) -> bool {
    (x >= 0 ==> u >= 0) && (x <= 0 ==> u <= 0)
}

/// One component of a vector that is not zero: its quotient by the boosted
/// length lies between minus one and one, on the component's side of zero.
proof fn lemma_unit_component(x: i64, m: int, k: int, root: int, n: int, sum: int)
    requires
        abs_int(saturate(x as int) as int) <= m,
        m * m <= sum,
        k > 0,
        n == sum * (k * k),
        root >= SCALE,
        root * root <= n < (root + 1) * (root + 1),
    ensures
        abs_int(saturate(x as int) as int) * (SCALE * k) <= SCALE * root,
        abs_int(unit_component(x, k, root as nat) as int) <= SCALE,
        unit_component(x, k, root as nat) == trunc_div(saturate(x as int) * (SCALE * k), root),
        abs_int(unit_component(x, k, root as nat) as int) * root <= abs_int(
            saturate(x as int) as int,
        ) * (SCALE * k) < (abs_int(unit_component(x, k, root as nat) as int) + 1) * root,
        x == 0 ==> unit_component(x, k, root as nat) == 0,
        x >= 0 ==> unit_component(x, k, root as nat) >= 0,
        x <= 0 ==> unit_component(x, k, root as nat) <= 0,
{
    let sx = saturate(x as int) as int;
    let mx = abs_int(sx);
    let f = SCALE * k;
    lemma_component_under_root(mx, m, f, k, root, n, sum);
    let p = sx * f;
    lemma_trunc_div_bounds(p, root);
    assert(abs_int(p) == mx * f) by (nonlinear_arith)
        requires
            p == sx * f,
            f > 0,
            mx == abs_int(sx),
    ;
    let q = trunc_div(p, root);
    let u = abs_int(q);
    assert(u <= SCALE) by (nonlinear_arith)
        requires
            u * root <= mx * f,
            mx * f <= SCALE * root,
            root > 0,
            u >= 0,
    ;
    if x == 0 {
        assert(u == 0) by (nonlinear_arith)
            requires
                u * root <= mx * f,
                mx == 0,
                root > 0,
                u >= 0,
        ;
    }
    assert((sx >= 0 ==> p >= 0) && (sx <= 0 ==> p <= 0)) by (nonlinear_arith)
        requires
            p == sx * f,
            f > 0,
    ;
    assert(p >= 0 ==> p / root >= 0) by (nonlinear_arith)
        requires
            root > 0,
    ;
    assert(p <= 0 ==> (-p) / root >= 0) by (nonlinear_arith)
        requires
            root > 0,
    ;
}

/// A vector that is not zero is scaled to unit length, whatever its size:
/// its boosted length is at least one, no component of the result exceeds
/// one, every component keeps its sign and those that were zero stay zero,
/// and the result has a length within a hundred-thousandth of one.
pub proof fn lemma_normalize4_unit(a: i64, b: i64, c: i64, d: i64)
    requires
        !(a == 0 && b == 0 && c == 0 && d == 0),
    ensures
        boosted_length(a, b, c, d) >= SCALE,
        spec_normalize4(a, b, c, d) is Some,
        ({
            let u = spec_normalize4(a, b, c, d)->0;
            &&& is_unit4(u.0 as int, u.1 as int, u.2 as int, u.3 as int)
            &&& -SCALE <= u.0 <= SCALE && -SCALE <= u.1 <= SCALE
            &&& -SCALE <= u.2 <= SCALE && -SCALE <= u.3 <= SCALE
            &&& (a == 0 ==> u.0 == 0) && (b == 0 ==> u.1 == 0)
            &&& (c == 0 ==> u.2 == 0) && (d == 0 ==> u.3 == 0)
            &&& same_signs(a, u.0) && same_signs(b, u.1) && same_signs(c, u.2) && same_signs(
                d,
                u.3,
            )
        }),
        ({
            let k = boost(a, b, c, d);
            let root = boosted_length(a, b, c, d);
            &&& abs_int(saturate(a as int) as int) * (SCALE * k) <= SCALE * root
            &&& abs_int(saturate(b as int) as int) * (SCALE * k) <= SCALE * root
            &&& abs_int(saturate(c as int) as int) * (SCALE * k) <= SCALE * root
            &&& abs_int(saturate(d as int) as int) * (SCALE * k) <= SCALE * root
        }),
{
    let sa = saturate(a as int) as int;
    let sb = saturate(b as int) as int;
    let sc = saturate(c as int) as int;
    let sd = saturate(d as int) as int;
    let ma = abs_int(sa);
    let mb = abs_int(sb);
    let mc = abs_int(sc);
    let md = abs_int(sd);
    let m = max_abs4(a, b, c, d);
    let k = boost(a, b, c, d);
    let sum = sq_sum(sa, sb, sc, sd);
    assert(sum == ma * ma + mb * mb + mc * mc + md * md && sum >= 0) by (nonlinear_arith)
        requires
            sum == sa * sa + sb * sb + sc * sc + sd * sd,
            ma == abs_int(sa),
            mb == abs_int(sb),
            mc == abs_int(sc),
            md == abs_int(sd),
    ;
    assert(m * m <= sum) by (nonlinear_arith)
        requires
            sum == ma * ma + mb * mb + mc * mc + md * md,
            m == ma || m == mb || m == mc || m == md,
    ;
    let n = sum * (k * k);
    assert(n >= (m * k) * (m * k) && n >= 0) by (nonlinear_arith)
        requires
            n == sum * (k * k),
            0 <= m * m <= sum,
            k > 0,
    ;
    let root = lemma_isqrt_exists(n as nat) as int;
    assert(root == boosted_length(a, b, c, d));
    lemma_isqrt_at_least(n as nat, root as nat, (m * k) as nat);
    assert(m * k >= SCALE) by (nonlinear_arith)
        requires
            (m >= 1 && k == SCALE) || (m >= SMALL && k == 1),
            SMALL >= SCALE,
    ;
    lemma_unit_component(a, m, k, root, n, sum);
    lemma_unit_component(b, m, k, root, n, sum);
    lemma_unit_component(c, m, k, root, n, sum);
    lemma_unit_component(d, m, k, root, n, sum);
    let f = SCALE * k;
    let ua = unit_component(a, k, root as nat) as int;
    let ub = unit_component(b, k, root as nat) as int;
    let uc = unit_component(c, k, root as nat) as int;
    let ud = unit_component(d, k, root as nat) as int;
    lemma_scaled_squares(ma, mb, mc, md, f, k);
    lemma_quotients_unit(
        ma * f,
        mb * f,
        mc * f,
        md * f,
        n,
        root,
        abs_int(ua),
        abs_int(ub),
        abs_int(uc),
        abs_int(ud),
    );
    assert(sq_sum(ua, ub, uc, ud) == sq_sum(abs_int(ua), abs_int(ub), abs_int(uc), abs_int(ud)))
        by (nonlinear_arith);
}

/// Scales `(a, b, c, d)` to unit length.
///
/// Returns `None` exactly when all four are zero; otherwise the result has a
/// length within a hundred-thousandth of one, and each of its components
/// lies on the same side of zero as the one it came from.
pub fn normalize4(a: i64, b: i64, c: i64, d: i64) -> (r: Option<(i64, i64, i64, i64)>)
    ensures
        r == spec_normalize4(a, b, c, d),
        r is None <==> (a == 0 && b == 0 && c == 0 && d == 0),
        r matches Some(u) ==> is_unit4(u.0 as int, u.1 as int, u.2 as int, u.3 as int),
        r matches Some(u) ==> same_signs(a, u.0) && same_signs(b, u.1) && same_signs(c, u.2)
            && same_signs(d, u.3),
{
    let ma = magnitude(a);
    let mb = magnitude(b);
    let mc = magnitude(c);
    let md = magnitude(d);
    let m_ab = if ma >= mb {
        ma
    } else {
        mb
    };
    let m_cd = if mc >= md {
        mc
    } else {
        md
    };
    let m = if m_ab >= m_cd {
        m_ab
    } else {
        m_cd
    };
    if m == 0 {
        return None;
    }
    proof {
        lemma_normalize4_unit(a, b, c, d);
    }
    let small = m < SMALL as u128;
    let sum: u128 = square(ma) + square(mb) + square(mc) + square(md);
    let scale: u128 = SCALE as u128;
    let kk: u128 = if small {
        scale * scale
    } else {
        1
    };
    let factor: i128 = if small {
        (SCALE as i128) * (SCALE as i128)
    } else {
        SCALE as i128
    };
    let ghost k: int = boost(a, b, c, d);
    assert(m == max_abs4(a, b, c, d));
    assert(scale * scale == 1_000_000_000_000_000_000) by (nonlinear_arith)
        requires
            scale == 1_000_000_000,
    ;
    assert(kk == k * k && factor == SCALE * k) by (nonlinear_arith)
        requires
            (kk == 1_000_000_000_000_000_000 && factor == 1_000_000_000_000_000_000 && k
                == 1_000_000_000) || (kk == 1 && factor == 1_000_000_000 && k == 1),
            SCALE == 1_000_000_000,
    ;
    assert(sum * kk <= 0xffff_ffff_ffff_fffc_0000_0000_0000_0004) by (nonlinear_arith)
        requires
            (sum < 0x4_0000_0000_0000_0000 && kk == 1_000_000_000_000_000_000) || (sum
                <= 0xffff_ffff_ffff_fffc_0000_0000_0000_0004 && kk == 1),
    ;
    let n: u128 = sum * kk;
    let root: u64 = isqrt(n);
    proof {
        assert(sum == sq_sum(ma as int, mb as int, mc as int, md as int));
        assert(sq_sum(ma as int, mb as int, mc as int, md as int) == sq_sum(
            saturate(a as int) as int,
            saturate(b as int) as int,
            saturate(c as int) as int,
            saturate(d as int) as int,
        )) by (nonlinear_arith)
            requires
                ma == abs_int(saturate(a as int) as int),
                mb == abs_int(saturate(b as int) as int),
                mc == abs_int(saturate(c as int) as int),
                md == abs_int(saturate(d as int) as int),
        ;
        assert(root == boosted_length(a, b, c, d));
    }
    let ua = scaled_quotient(a, factor, root);
    let ub = scaled_quotient(b, factor, root);
    let uc = scaled_quotient(c, factor, root);
    let ud = scaled_quotient(d, factor, root);
    Some((ua, ub, uc, ud))
}

/// Scaling every component by `SCALE * k` scales the squared length by
/// `SCALE * SCALE * k * k`.
proof fn lemma_scaled_squares(a: int, b: int, c: int, d: int, f: int, k: int)
    requires
        f == SCALE * k,
    ensures
        (a * f) * (a * f) + (b * f) * (b * f) + (c * f) * (c * f) + (d * f) * (d * f) == (SCALE
            * SCALE) * ((a * a + b * b + c * c + d * d) * (k * k)),
{
    let ff = f * f;
    let ss = SCALE * SCALE;
    let kk = k * k;
    assert((a * f) * (a * f) == (a * a) * ff) by (nonlinear_arith)
        requires
            ff == f * f,
    ;
    assert((b * f) * (b * f) == (b * b) * ff) by (nonlinear_arith)
        requires
            ff == f * f,
    ;
    assert((c * f) * (c * f) == (c * c) * ff) by (nonlinear_arith)
        requires
            ff == f * f,
    ;
    assert((d * f) * (d * f) == (d * d) * ff) by (nonlinear_arith)
        requires
            ff == f * f,
    ;
    let sum = a * a + b * b + c * c + d * d;
    assert(sum * ff == (a * a) * ff + (b * b) * ff + (c * c) * ff + (d * d) * ff)
        by (nonlinear_arith)
        requires
            sum == a * a + b * b + c * c + d * d,
    ;
    assert(ff == ss * kk) by (nonlinear_arith)
        requires
            ff == f * f,
            f == SCALE * k,
            ss == SCALE * SCALE,
            kk == k * k,
    ;
    assert(sum * ff == ss * (sum * kk)) by (nonlinear_arith)
        requires
            ff == ss * kk,
    ;
}

/// A component's scaled magnitude is at most `SCALE * root`.
proof fn lemma_component_under_root(
    mx: int,
    m: int,
    factor: int,
    k: int,
    root: int,
    n: int,
    sum: int,
)
    requires
        0 <= mx <= m,
        m * m <= sum,
        k > 0,
        factor == SCALE * k,
        n == sum * (k * k),
        root >= 0,
        n < (root + 1) * (root + 1),
    ensures
        mx * factor <= SCALE * root,
{
    // (mx * k)^2 <= n < (root + 1)^2, so mx * k <= root
    assert((mx * k) * (mx * k) <= n) by (nonlinear_arith)
        requires
            0 <= mx <= m,
            m * m <= sum,
            k > 0,
            n == sum * (k * k),
    ;
    assert(mx * k <= root) by (nonlinear_arith)
        requires
            (mx * k) * (mx * k) < (root + 1) * (root + 1),
            root >= 0,
            mx >= 0,
            k > 0,
    ;
    assert(mx * factor <= SCALE * root) by (nonlinear_arith)
        requires
            mx * k <= root,
            factor == SCALE * k,
    ;
}

} // verus!
