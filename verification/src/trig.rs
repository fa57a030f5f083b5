//! Fixed-point cosine and sine on micro-radians.
//!
//! Angles are `i64` values counting micro-radians. `cos_fp` reduces its
//! argument to the first quadrant and evaluates a degree-10 Taylor
//! polynomial of the cosine by a Horner chain carried out in integer
//! arithmetic; `sin_fp` is the quarter-turn phase shift of `cos_fp`. The
//! contracts pin the results to spec-level mirrors of the same integer
//! recurrences, together with the range `[-SCALE, SCALE]`.

use vstd::prelude::*;

use crate::fixed::SCALE;

verus! {

/// Pi in micro-radians.
pub const PI_FP: i64 = 3_141_593;

/// Pi / 2 in micro-radians.
pub const HALF_PI_FP: i64 = 1_570_796;

/// 2 * Pi in micro-radians.
pub const TWO_PI_FP: i64 = 6_283_185;

/// Largest argument the first-quadrant Taylor evaluation accepts.
pub const QUARTER_LIMIT: i64 = 1_600_000;

/// One Horner step of the Taylor chain: `SCALE - y2 * acc / (d * SCALE)`.
pub open spec fn taylor_step(y2: int, acc: int, d: int) -> int {
    SCALE as int - (y2 * acc) / (d * SCALE as int)
}

/// Spec mirror of the first-quadrant evaluation: cosine of `y`
/// micro-radians for `0 <= y <= QUARTER_LIMIT`, scaled by `SCALE`.
pub open spec fn cos_quarter(y: int) -> int {
    let y2 = (y * y) / (SCALE as int);
    let a1 = taylor_step(y2, SCALE as int, 90);
    let a2 = taylor_step(y2, a1, 56);
    let a3 = taylor_step(y2, a2, 30);
    let a4 = taylor_step(y2, a3, 12);
    taylor_step(y2, a4, 2)
}

/// Spec mirror of `cos_fp`: quadrant reduction around `cos_quarter`.
pub open spec fn cos_fp_spec(x: int) -> int {
    if x <= HALF_PI_FP as int {
        cos_quarter(x)
    } else if x <= PI_FP as int {
        -cos_quarter(PI_FP as int - x)
    } else if x <= PI_FP as int + HALF_PI_FP as int {
        -cos_quarter(x - PI_FP as int)
    } else {
        cos_quarter(TWO_PI_FP as int - x)
    }
}

/// Spec mirror of `sin_fp`: a quarter-turn phase shift of the cosine.
pub open spec fn sin_fp_spec(x: int) -> int {
    if x <= HALF_PI_FP as int {
        cos_fp_spec(HALF_PI_FP as int - x)
    } else {
        cos_fp_spec(x - HALF_PI_FP as int)
    }
}

/// One Horner step stays within `[0, SCALE]` for the inner denominators.
proof fn lemma_step_bound(y2: int, acc: int, d: int)
    requires
        0 <= y2 <= 2_560_000,
        0 <= acc <= 1_000_000,
        d >= 12,
    ensures
        0 <= y2 * acc <= 2_560_000_000_000,
        0 <= (y2 * acc) / (d * (SCALE as int)) <= 213_333,
        0 <= taylor_step(y2, acc, d) <= SCALE as int,
{
    let den = d * (SCALE as int);
    assert(d * (SCALE as int) >= 12_000_000) by (nonlinear_arith)
        requires
            d >= 12,
            SCALE == 1_000_000,
    {
    }
    assert(0 <= y2 * acc <= 2_560_000_000_000) by (nonlinear_arith)
        requires
            0 <= y2 <= 2_560_000,
            0 <= acc <= 1_000_000,
    {
    }
    vstd::arithmetic::div_mod::lemma_div_pos_is_pos(y2 * acc, den);
    vstd::arithmetic::div_mod::lemma_div_is_ordered(y2 * acc, 2_560_000_000_000, den);
    vstd::arithmetic::div_mod::lemma_div_is_ordered_by_denominator(
        2_560_000_000_000,
        12_000_000,
        den,
    );
}

/// First-quadrant cosine: Taylor polynomial in fixed point.
fn cos_quarter_exec(y: u64) -> (r: i64)
    requires
        y <= QUARTER_LIMIT,
    ensures
        r == cos_quarter(y as int),
        -(SCALE as int) <= r <= SCALE as int,
{
    proof {
        assert((y as int) * (y as int) <= 2_560_000_000_000) by (nonlinear_arith)
            requires
                0 <= y <= 1_600_000,
        {
        }
        vstd::arithmetic::div_mod::lemma_div_pos_is_pos((y as int) * (y as int), SCALE as int);
        vstd::arithmetic::div_mod::lemma_div_is_ordered(
            (y as int) * (y as int),
            2_560_000_000_000,
            SCALE as int,
        );
    }
    let y2: u64 = y * y / 1_000_000;
    let mut acc: u64 = 1_000_000;
    proof {
        lemma_step_bound(y2 as int, acc as int, 90);
    }
    acc = 1_000_000 - y2 * acc / 90_000_000;
    proof {
        lemma_step_bound(y2 as int, acc as int, 56);
    }
    acc = 1_000_000 - y2 * acc / 56_000_000;
    proof {
        lemma_step_bound(y2 as int, acc as int, 30);
    }
    acc = 1_000_000 - y2 * acc / 30_000_000;
    proof {
        lemma_step_bound(y2 as int, acc as int, 12);
    }
    acc = 1_000_000 - y2 * acc / 12_000_000;
    proof {
        assert(0 <= (y2 as int) * (acc as int) <= 2_560_000_000_000) by (nonlinear_arith)
            requires
                0 <= y2 as int <= 2_560_000,
                0 <= acc as int <= 1_000_000,
        {
        }
        vstd::arithmetic::div_mod::lemma_div_pos_is_pos((y2 as int) * (acc as int), 2_000_000);
        vstd::arithmetic::div_mod::lemma_div_is_ordered(
            (y2 as int) * (acc as int),
            2_560_000_000_000,
            2_000_000,
        );
    }
    let tail: u64 = y2 * acc / 2_000_000;
    1_000_000i64 - tail as i64
}

/// Cosine of `x` micro-radians, scaled by `SCALE`.
pub fn cos_fp(x: i64) -> (r: i64)
    requires
        0 <= x <= TWO_PI_FP,
    ensures
        r == cos_fp_spec(x as int),
        -(SCALE as int) <= r <= SCALE as int,
{
    if x <= HALF_PI_FP {
        cos_quarter_exec(x as u64)
    } else if x <= PI_FP {
        -cos_quarter_exec((PI_FP - x) as u64)
    } else if x <= PI_FP + HALF_PI_FP {
        -cos_quarter_exec((x - PI_FP) as u64)
    } else {
        cos_quarter_exec((TWO_PI_FP - x) as u64)
    }
}

/// Sine of `x` micro-radians, scaled by `SCALE`.
pub fn sin_fp(x: i64) -> (r: i64)
    requires
        0 <= x <= TWO_PI_FP,
    ensures
        r == sin_fp_spec(x as int),
        -(SCALE as int) <= r <= SCALE as int,
{
    if x <= HALF_PI_FP {
        cos_fp(HALF_PI_FP - x)
    } else {
        cos_fp(x - HALF_PI_FP)
    }
}

} // verus!
