//! Saturating fixed-point arithmetic.
//!
//! A value is an `i64` that counts billionths of a unit, so `SCALE` stands for
//! one. Sums and products are computed exactly in a wider type and then
//! brought back into `[-LIMIT, LIMIT]`; quotients round toward zero.
use vstd::prelude::*;

verus! {

/// The raw value that stands for one.
pub const SCALE: i64 = 1_000_000_000;

/// The largest magnitude a value can take.
pub const LIMIT: i64 = 0x7fff_ffff_ffff_ffff;

/// One full turn in radians.
pub const TWO_PI: i64 = 6_283_185_307;

/// The nearest value in `[-LIMIT, LIMIT]`.
pub open spec fn saturate(v: int) -> i64 {
    if v > LIMIT {
        LIMIT
    } else if v < -LIMIT {
        (-LIMIT) as i64
    } else {
        v as i64
    }
}

/// The quotient of `a` by a positive `b`, rounded toward zero.
pub open spec fn trunc_div(a: int, b: int) -> int
    recommends
        b > 0,
{
    if a >= 0 {
        a / b
    } else {
        -((-a) / b)
    }
}

/// What `sat_add` returns.
pub open spec fn spec_sat_add(a: i64, b: i64) -> i64 {
    saturate(a + b)
}

/// What `sat_sub` returns.
pub open spec fn spec_sat_sub(a: i64, b: i64) -> i64 {
    saturate(a - b)
}

/// What `sat_neg` returns.
pub open spec fn spec_sat_neg(a: i64) -> i64 {
    saturate(-a)
}

/// `a * b / c` with an exact product.
pub open spec fn spec_mul_div(a: i64, b: i64, c: i64) -> i64
    recommends
        c > 0,
{
    saturate(trunc_div(a * b, c as int))
}

/// The product of two fixed-point values.
pub open spec fn spec_fx_mul(a: i64, b: i64) -> i64 {
    spec_mul_div(a, b, SCALE)
}

/// `r` is the integer square root of `n`, rounded down.
pub open spec fn is_isqrt(n: nat, r: nat) -> bool {
    r * r <= n < (r + 1) * (r + 1)
}

/// The integer square root of `n`, rounded down.
pub open spec fn spec_isqrt(n: nat) -> nat {
    choose|r: nat| is_isqrt(n, r)
}

/// The square root of a fixed-point value; zero for a negative one.
pub open spec fn spec_fx_sqrt(a: i64) -> i64 {
    if a <= 0 {
        0
    } else {
        spec_isqrt((a * SCALE) as nat) as i64
    }
}

/// At most one number is the rounded-down square root of `n`.
pub proof fn lemma_isqrt_unique(n: nat, r1: nat, r2: nat)
    requires
        is_isqrt(n, r1),
        is_isqrt(n, r2),
    ensures
        r1 == r2,
{
    if r1 < r2 {
        assert((r1 + 1) * (r1 + 1) <= r2 * r2) by (nonlinear_arith)
            requires
                r1 + 1 <= r2,
        ;
    } else if r2 < r1 {
        assert((r2 + 1) * (r2 + 1) <= r1 * r1) by (nonlinear_arith)
            requires
                r2 + 1 <= r1,
        ;
    }
}

/// A number that squares under `n` and whose successor squares over it is
/// the square root that `spec_isqrt` names.
pub proof fn lemma_isqrt_is(n: nat, r: nat)
    requires
        is_isqrt(n, r),
    ensures
        spec_isqrt(n) == r,
{
    lemma_isqrt_unique(n, r, spec_isqrt(n));
}

/// Every number has a rounded-down square root, and `spec_isqrt` names it.
pub proof fn lemma_isqrt_exists(n: nat) -> (r: nat)
    ensures
        r == spec_isqrt(n),
        is_isqrt(n, r),
    decreases n,
{
    if n == 0 {
        assert(is_isqrt(0, 0)) by (nonlinear_arith);
        lemma_isqrt_is(0, 0);
        0
    } else {
        let p = lemma_isqrt_exists((n - 1) as nat);
        if (p + 1) * (p + 1) <= n {
            assert((p + 2) * (p + 2) > n) by (nonlinear_arith)
                requires
                    n - 1 < (p + 1) * (p + 1),
            ;
            assert(is_isqrt(n, p + 1));
            lemma_isqrt_is(n, p + 1);
            p + 1
        } else {
            assert(is_isqrt(n, p));
            lemma_isqrt_is(n, p);
            p
        }
    }
}

/// The square root is monotone: a larger radicand has no smaller root.
pub proof fn lemma_isqrt_at_least(n: nat, r: nat, k: nat)
    requires
        is_isqrt(n, r),
        k * k <= n,
    ensures
        k <= r,
{
    if r < k {
        assert((r + 1) * (r + 1) <= k * k) by (nonlinear_arith)
            requires
                r + 1 <= k,
        ;
    }
}

/// Brings a wide value into `[-LIMIT, LIMIT]`.
#[verifier::when_used_as_spec(saturate_wide)]
pub fn narrow(v: i128) -> (r: i64)
    ensures
        r == saturate(v as int),
{
    if v > LIMIT as i128 {
        LIMIT
    } else if v < -(LIMIT as i128) {
        -LIMIT
    } else {
        v as i64
    }
}

/// What `narrow` returns.
pub open spec fn saturate_wide(v: i128) -> i64 {
    saturate(v as int)
}

/// The sum, brought into range.
#[verifier::when_used_as_spec(spec_sat_add)]
pub fn sat_add(a: i64, b: i64) -> (r: i64)
    ensures
        r == spec_sat_add(a, b),
{
    narrow(a as i128 + b as i128)
}

/// The difference, brought into range.
#[verifier::when_used_as_spec(spec_sat_sub)]
pub fn sat_sub(a: i64, b: i64) -> (r: i64)
    ensures
        r == spec_sat_sub(a, b),
{
    narrow(a as i128 - b as i128)
}

/// The negative, brought into range.
#[verifier::when_used_as_spec(spec_sat_neg)]
pub fn sat_neg(a: i64) -> (r: i64)
    ensures
        r == spec_sat_neg(a),
{
    narrow(-(a as i128))
}

/// The product of two `i64` lies well inside `i128`.
pub proof fn lemma_product_fits(a: i64, b: i64)
    ensures
        -0x4000_0000_0000_0000_0000_0000_0000_0000 <= a * b
            <= 0x4000_0000_0000_0000_0000_0000_0000_0000,
{
    assert(-0x4000_0000_0000_0000_0000_0000_0000_0000 <= a * b
        <= 0x4000_0000_0000_0000_0000_0000_0000_0000) by (nonlinear_arith)
        requires
            -0x8000_0000_0000_0000 <= a <= 0x7fff_ffff_ffff_ffff,
            -0x8000_0000_0000_0000 <= b <= 0x7fff_ffff_ffff_ffff,
    ;
}

/// `a * b / c` for a positive `c`: the product is exact, the quotient is
/// rounded toward zero and brought into range.
#[verifier::when_used_as_spec(spec_mul_div)]
pub fn mul_div(a: i64, b: i64, c: i64) -> (r: i64)
    requires
        c > 0,
    ensures
        r == spec_mul_div(a, b, c),
{
    proof {
        lemma_product_fits(a, b);
    }
    let p: i128 = (a as i128) * (b as i128);
    let q: i128 = p / (c as i128);
    narrow(q)
}

/// The product of two fixed-point values, rounded toward zero.
#[verifier::when_used_as_spec(spec_fx_mul)]
pub fn fx_mul(a: i64, b: i64) -> (r: i64)
    ensures
        r == spec_fx_mul(a, b),
{
    mul_div(a, b, SCALE)
}

/// The integer square root, by bisection.
pub fn isqrt(n: u128) -> (r: u64)
    ensures
        is_isqrt(n as nat, r as nat),
        r == spec_isqrt(n as nat),
{
    let mut lo: u128 = 0;
    let mut hi: u128 = 0x1_0000_0000_0000_0000;
    assert(hi * hi == 0x1_0000_0000_0000_0000_0000_0000_0000_0000) by (nonlinear_arith)
        requires
            hi == 0x1_0000_0000_0000_0000,
    ;
    while hi - lo > 1
        invariant
            lo < hi <= 0x1_0000_0000_0000_0000,
            lo * lo <= n < hi * hi,
        decreases hi - lo,
    {
        let mid: u128 = lo + (hi - lo) / 2;
        assert(mid * mid <= 0xffff_ffff_ffff_ffff * 0xffff_ffff_ffff_ffff) by (nonlinear_arith)
            requires
                0 <= mid <= 0xffff_ffff_ffff_ffff,
        ;
        if mid * mid <= n {
            lo = mid;
        } else {
            hi = mid;
        }
    }
    proof {
        lemma_isqrt_is(n as nat, lo as nat);
    }
    lo as u64
}

/// The square root of a fixed-point value, rounded down; zero for a
/// negative one.
#[verifier::when_used_as_spec(spec_fx_sqrt)]
pub fn fx_sqrt(a: i64) -> (r: i64)
    ensures
        r == spec_fx_sqrt(a),
        r >= 0,
{
    if a <= 0 {
        0
    } else {
        let scale: u128 = SCALE as u128;
        assert(a * scale <= 0x7fff_ffff_ffff_ffff * 1_000_000_000) by (nonlinear_arith)
            requires
                0 < a <= 0x7fff_ffff_ffff_ffff,
                scale == 1_000_000_000,
        ;
        let n: u128 = (a as u128) * scale;
        let r: u64 = isqrt(n);
        proof {
            // the root of a number under 2^93 is under 2^47
            if r as nat >= 0x8000_0000_0000 {
                assert(r * r >= 0x8000_0000_0000 * 0x8000_0000_0000) by (nonlinear_arith)
                    requires
                        r >= 0x8000_0000_0000,
                ;
            }
        }
        r as i64
    }
}

} // verus!
