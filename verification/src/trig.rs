//! Sine and cosine of a fixed-point angle.
//!
//! An angle is reduced to an eighth of a turn, where the sine is a short
//! polynomial and the cosine is the root of what the sine leaves of one. The
//! pair therefore always lies on the unit circle, to within the rounding of
//! one square root.
use vstd::prelude::*;
use crate::fixed::{
    isqrt, lemma_isqrt_exists, lemma_isqrt_is, mul_div, spec_isqrt, spec_mul_div, SCALE, TWO_PI,
};
use crate::unit::is_unit4;

verus! {

/// An eighth of a turn, in turns.
pub const OCTANT: i64 = 125_000_000;

/// The sine of `e` turns, for `e` of at most an eighth of a turn: the
/// series `x - x^3/3! + x^5/5! - ...` at `x = 2 pi e` up to the term in
/// `x^11`, nested so that each product is rounded down once.
pub open spec fn spec_octant_sin(e: int) -> int
    recommends
        0 <= e <= OCTANT,
{
    let x = (TWO_PI * e) / (SCALE as int);
    let x2 = (x * x) / (SCALE as int);
    let h1 = SCALE - x2 / 110;
    let h2 = SCALE - ((x2 * h1) / (SCALE as int)) / 72;
    let h3 = SCALE - ((x2 * h2) / (SCALE as int)) / 42;
    let h4 = SCALE - ((x2 * h3) / (SCALE as int)) / 20;
    let h5 = SCALE - ((x2 * h4) / (SCALE as int)) / 6;
    (x * h5) / (SCALE as int)
}

/// The cosine that goes with a sine `s` in the first eighth of a turn.
pub open spec fn spec_octant_cos(s: int) -> int
    recommends
        0 <= s <= SCALE,
{
    spec_isqrt((SCALE * SCALE - s * s) as nat) as int
}

/// Sine and cosine of `turns` full turns, in that order.
pub open spec fn spec_sin_cos_turns(turns: i64) -> (i64, i64) {
    let r = (turns as int) % (SCALE as int);
    let octant = r / (OCTANT as int);
    let e = r % (OCTANT as int);
    let f = OCTANT - e;
    if octant == 0 {
        let s = spec_octant_sin(e);
        (s as i64, spec_octant_cos(s) as i64)
    } else if octant == 1 {
        let s = spec_octant_sin(f);
        (spec_octant_cos(s) as i64, s as i64)
    } else if octant == 2 {
        let s = spec_octant_sin(e);
        (spec_octant_cos(s) as i64, (-s) as i64)
    } else if octant == 3 {
        let s = spec_octant_sin(f);
        (s as i64, (-spec_octant_cos(s)) as i64)
    } else if octant == 4 {
        let s = spec_octant_sin(e);
        ((-s) as i64, (-spec_octant_cos(s)) as i64)
    } else if octant == 5 {
        let s = spec_octant_sin(f);
        ((-spec_octant_cos(s)) as i64, (-s) as i64)
    } else if octant == 6 {
        let s = spec_octant_sin(e);
        ((-spec_octant_cos(s)) as i64, s as i64)
    } else {
        let s = spec_octant_sin(f);
        ((-s) as i64, spec_octant_cos(s) as i64)
    }
}

/// Sine and cosine of an angle in radians.
pub open spec fn spec_sin_cos(angle: i64) -> (i64, i64) {
    spec_sin_cos_turns(spec_mul_div(angle, SCALE, TWO_PI))
}

/// The octant sine is at most the angle in radians, and under one.
pub proof fn lemma_octant_sin_bounds(e: int)
    requires
        0 <= e <= OCTANT,
    ensures
        0 <= spec_octant_sin(e) <= MAX_OCTANT_SIN,
        e == 0 ==> spec_octant_sin(e) == 0,
{
    let x = (TWO_PI * e) / (SCALE as int);
    let x2 = (x * x) / (SCALE as int);
    let h1 = SCALE - x2 / 110;
    let h2 = SCALE - ((x2 * h1) / (SCALE as int)) / 72;
    let h3 = SCALE - ((x2 * h2) / (SCALE as int)) / 42;
    let h4 = SCALE - ((x2 * h3) / (SCALE as int)) / 20;
    let h5 = SCALE - ((x2 * h4) / (SCALE as int)) / 6;
    assert(0 <= TWO_PI * e <= 6_283_185_307 * 125_000_000) by (nonlinear_arith)
        requires
            0 <= e <= 125_000_000,
    ;
    assert(0 <= x <= MAX_OCTANT_SIN);
    lemma_square_bound(x);
    assert(0 <= x2 <= MAX_OCTANT_SQUARE);
    assert(0 <= h1 <= SCALE);
    lemma_product_bound(x2, h1);
    assert(0 <= h2 <= SCALE);
    lemma_product_bound(x2, h2);
    assert(0 <= h3 <= SCALE);
    lemma_product_bound(x2, h3);
    assert(0 <= h4 <= SCALE);
    lemma_product_bound(x2, h4);
    assert(0 <= h5 <= SCALE);
    assert(0 <= x * h5 <= x * 1_000_000_000) by (nonlinear_arith)
        requires
            0 <= x,
            0 <= h5 <= 1_000_000_000,
    ;
}

/// The angle of an eighth of a turn in radians, rounded up: no sine in the
/// first octant exceeds it.
pub const MAX_OCTANT_SIN: i64 = 785_398_164;

/// The square of that angle, rounded up.
pub const MAX_OCTANT_SQUARE: i64 = 616_850_277;

proof fn lemma_square_bound(x: int)
    requires
        0 <= x <= MAX_OCTANT_SIN,
    ensures
        0 <= x * x <= 785_398_164 * 785_398_164,
        0 <= (x * x) / (SCALE as int) <= MAX_OCTANT_SQUARE,
{
    assert(0 <= x * x <= 785_398_164 * 785_398_164) by (nonlinear_arith)
        requires
            0 <= x <= 785_398_164,
    ;
}

proof fn lemma_product_bound(x2: int, h: int)
    requires
        0 <= x2 <= MAX_OCTANT_SQUARE,
        0 <= h <= SCALE,
    ensures
        0 <= x2 * h <= 616_850_277 * 1_000_000_000,
        0 <= (x2 * h) / (SCALE as int) <= MAX_OCTANT_SQUARE,
{
    assert(0 <= x2 * h <= 616_850_277 * 1_000_000_000) by (nonlinear_arith)
        requires
            0 <= x2 <= 616_850_277,
            0 <= h <= 1_000_000_000,
    ;
}

/// Sine and cosine in the first eighth of a turn lie on the unit circle.
pub proof fn lemma_octant_unit(s: int)
    requires
        0 <= s <= MAX_OCTANT_SIN,
    ensures
        0 <= spec_octant_cos(s) <= SCALE,
        is_unit4(s, spec_octant_cos(s), 0, 0),
        s == 0 ==> spec_octant_cos(s) == SCALE,
{
    let n = SCALE * SCALE - s * s;
    lemma_square_bound(s);
    let c = lemma_isqrt_exists(n as nat);
    assert(c <= SCALE) by {
        if c > SCALE {
            assert(c * c > 1_000_000_000 * 1_000_000_000) by (nonlinear_arith)
                requires
                    c > 1_000_000_000,
            ;
        }
    }
    assert((c + 1) * (c + 1) == c * c + 2 * c + 1) by (nonlinear_arith);
    if s == 0 {
        assert(1_000_000_000 * 1_000_000_000 <= n < 1_000_000_001 * 1_000_000_001);
        lemma_isqrt_is(n as nat, 1_000_000_000);
    }
}

/// Sine and cosine lie on the unit circle at every angle: neither exceeds
/// one, and the length of the pair is within a hundred-thousandth of one.
pub proof fn lemma_sin_cos_unit(turns: i64)
    ensures
        -SCALE <= spec_sin_cos_turns(turns).0 <= SCALE,
        -SCALE <= spec_sin_cos_turns(turns).1 <= SCALE,
        is_unit4(spec_sin_cos_turns(turns).0 as int, spec_sin_cos_turns(turns).1 as int, 0, 0),
{
    let r = (turns as int) % (SCALE as int);
    let e = r % (OCTANT as int);
    let f = OCTANT - e;
    lemma_octant_sin_bounds(e);
    lemma_octant_sin_bounds(f);
    lemma_octant_unit(spec_octant_sin(e));
    lemma_octant_unit(spec_octant_sin(f));
    lemma_swap_unit(spec_octant_sin(e), spec_octant_cos(spec_octant_sin(e)));
    lemma_swap_unit(spec_octant_sin(f), spec_octant_cos(spec_octant_sin(f)));
}

/// Sine of `e` turns and the matching cosine, `e` at most an eighth.
fn octant_sin_cos(e: i64) -> (r: (i64, i64))
    requires
        0 <= e <= OCTANT,
    ensures
        r.0 == spec_octant_sin(e as int),
        r.1 == spec_octant_cos(r.0 as int),
        0 <= r.0 <= MAX_OCTANT_SIN,
        0 <= r.1 <= SCALE,
        is_unit4(r.0 as int, r.1 as int, 0, 0),
{
    proof {
        lemma_octant_sin_bounds(e as int);
    }
    assert(0 <= TWO_PI * e <= 6_283_185_307 * 125_000_000) by (nonlinear_arith)
        requires
            0 <= e <= 125_000_000,
    ;
    let x: i64 = (TWO_PI * e) / SCALE;
    proof {
        lemma_square_bound(x as int);
    }
    let x2: i64 = (x * x) / SCALE;
    let h1: i64 = SCALE - x2 / 110;
    proof {
        lemma_product_bound(x2 as int, h1 as int);
    }
    let h2: i64 = SCALE - ((x2 * h1) / SCALE) / 72;
    proof {
        lemma_product_bound(x2 as int, h2 as int);
    }
    let h3: i64 = SCALE - ((x2 * h2) / SCALE) / 42;
    proof {
        lemma_product_bound(x2 as int, h3 as int);
    }
    let h4: i64 = SCALE - ((x2 * h3) / SCALE) / 20;
    proof {
        lemma_product_bound(x2 as int, h4 as int);
    }
    let h5: i64 = SCALE - ((x2 * h4) / SCALE) / 6;
    assert(0 <= x * h5 <= 785_398_164 * 1_000_000_000) by (nonlinear_arith)
        requires
            0 <= x <= 785_398_164,
            0 <= h5 <= 1_000_000_000,
    ;
    let s: i64 = (x * h5) / SCALE;
    proof {
        lemma_square_bound(s as int);
        lemma_octant_unit(s as int);
    }
    let n: u128 = (SCALE as u128) * (SCALE as u128) - (s as u128) * (s as u128);
    let c: u64 = isqrt(n);
    (s, c as i64)
}

/// Sine and cosine of `turns` full turns.
///
/// The pair lies on the unit circle for every input.
pub fn sin_cos_turns(turns: i64) -> (r: (i64, i64))
    ensures
        r == spec_sin_cos_turns(turns),
        -SCALE <= r.0 <= SCALE,
        -SCALE <= r.1 <= SCALE,
        is_unit4(r.0 as int, r.1 as int, 0, 0),
{
    let t: i64 = turns % SCALE;
    let r: i64 = if t < 0 {
        t + SCALE
    } else {
        t
    };
    assert(r == (turns as int) % (SCALE as int));
    let octant: i64 = r / OCTANT;
    let e: i64 = r % OCTANT;
    let f: i64 = OCTANT - e;
    if octant == 0 {
        let (s, c) = octant_sin_cos(e);
        (s, c)
    } else if octant == 1 {
        let (s, c) = octant_sin_cos(f);
        proof {
            lemma_swap_unit(s as int, c as int);
        }
        (c, s)
    } else if octant == 2 {
        let (s, c) = octant_sin_cos(e);
        proof {
            lemma_swap_unit(s as int, c as int);
        }
        (c, -s)
    } else if octant == 3 {
        let (s, c) = octant_sin_cos(f);
        proof {
            lemma_swap_unit(s as int, c as int);
        }
        (s, -c)
    } else if octant == 4 {
        let (s, c) = octant_sin_cos(e);
        proof {
            lemma_swap_unit(s as int, c as int);
        }
        (-s, -c)
    } else if octant == 5 {
        let (s, c) = octant_sin_cos(f);
        proof {
            lemma_swap_unit(s as int, c as int);
        }
        (-c, -s)
    } else if octant == 6 {
        let (s, c) = octant_sin_cos(e);
        proof {
            lemma_swap_unit(s as int, c as int);
        }
        (-c, s)
    } else {
        let (s, c) = octant_sin_cos(f);
        proof {
            lemma_swap_unit(s as int, c as int);
        }
        (-s, c)
    }
}

/// Swapping the two or changing a sign keeps a pair on the unit circle.
proof fn lemma_swap_unit(s: int, c: int)
    requires
        is_unit4(s, c, 0, 0),
    ensures
        is_unit4(c, s, 0, 0),
        is_unit4(c, -s, 0, 0),
        is_unit4(s, -c, 0, 0),
        is_unit4(-s, -c, 0, 0),
        is_unit4(-c, -s, 0, 0),
        is_unit4(-c, s, 0, 0),
        is_unit4(-s, c, 0, 0),
{
    assert((-s) * (-s) == s * s) by (nonlinear_arith);
    assert((-c) * (-c) == c * c) by (nonlinear_arith);
}

/// Sine and cosine of an angle in radians.
pub fn sin_cos(angle: i64) -> (r: (i64, i64))
    ensures
        r == spec_sin_cos(angle),
        -SCALE <= r.0 <= SCALE,
        -SCALE <= r.1 <= SCALE,
        is_unit4(r.0 as int, r.1 as int, 0, 0),
{
    sin_cos_turns(mul_div(angle, SCALE, TWO_PI))
}

/// A quarter of a turn, in turns.
pub const QUARTER: i64 = 250_000_000;

/// Bisection for the arc cosine between `lo` and `hi`, both in turns: the
/// cosine at `lo` is known to reach `d`, the one at `hi` to fall short.
pub open spec fn spec_acos_search(d: i64, lo: int, hi: int) -> int
    decreases hi - lo,
{
    if hi - lo <= 1 || lo < 0 || hi > QUARTER + 1 {
        lo
    } else {
        let mid = lo + (hi - lo) / 2;
        if spec_sin_cos_turns(mid as i64).1 >= d {
            spec_acos_search(d, mid, hi)
        } else {
            spec_acos_search(d, lo, mid)
        }
    }
}

/// The angle of the first quarter turn whose cosine is `d`, in turns.
pub open spec fn spec_acos_turns(d: i64) -> i64 {
    spec_acos_search(d, 0, QUARTER + 1) as i64
}

/// The angle of the first quarter turn whose cosine is `d`, in turns.
///
/// For `d` of at most one the cosine at the result reaches `d`, and short
/// of a quarter turn the cosine one step further falls short of it. A `d`
/// of zero or less gives the quarter turn.
#[verifier::when_used_as_spec(spec_acos_turns)]
pub fn acos_turns(d: i64) -> (r: i64)
    ensures
        r == spec_acos_turns(d),
        0 <= r <= QUARTER,
        d <= SCALE ==> spec_sin_cos_turns(r).1 >= d,
        r < QUARTER ==> spec_sin_cos_turns((r + 1) as i64).1 < d,
{
    let mut lo: i64 = 0;
    let mut hi: i64 = QUARTER + 1;
    proof {
        lemma_sin_cos_whole_turn(0);
    }
    while hi - lo > 1
        invariant
            0 <= lo < hi <= QUARTER + 1,
            spec_acos_search(d, lo as int, hi as int) == spec_acos_search(d, 0, QUARTER + 1),
            d <= SCALE ==> spec_sin_cos_turns(lo).1 >= d,
            hi <= QUARTER ==> spec_sin_cos_turns(hi).1 < d,
        decreases hi - lo,
    {
        let mid: i64 = lo + (hi - lo) / 2;
        let (_, c) = sin_cos_turns(mid);
        if c >= d {
            lo = mid;
        } else {
            hi = mid;
        }
    }
    lo
}

/// At a whole number of turns the sine is zero and the cosine is one.
pub proof fn lemma_sin_cos_whole_turn(turns: i64)
    requires
        (turns as int) % (SCALE as int) == 0,
    ensures
        spec_sin_cos_turns(turns) == (0i64, SCALE),
{
    lemma_octant_sin_bounds(0);
    lemma_octant_unit(0);
}

} // verus!
