//! Fixed-point scalar arithmetic for the signal pipeline.
//!
//! Every amplitude in the engine is an `i64` counting micro-units: the real
//! value `x` is stored as `x * SCALE`. The helpers here are the shared
//! arithmetic kernel: truncating division (the rounding the pipeline uses
//! everywhere), an integer square root, and saturation to a symmetric range.

use vstd::prelude::*;

verus! {

/// Number of stored units that make up 1.0 of signal amplitude.
pub const SCALE: i64 = 1_000_000;

/// Truncating (round-toward-zero) division, the spec-level mirror of what
/// `div_trunc` computes. Defined only for positive divisors.
pub open spec fn tdiv(a: int, b: int) -> int
    recommends
        b > 0,
{
    if a >= 0 {
        a / b
    } else {
        -((-a) / b)
    }
}

/// Quotient of `a` and `b` rounded toward zero.
pub fn div_trunc(a: i128, b: i128) -> (r: i128)
    requires
        b > 0,
        a > i128::MIN,
    ensures
        r == tdiv(a as int, b as int),
{
    if a >= 0 {
        let q: u128 = (a as u128) / (b as u128);
        q as i128
    } else {
        let n: i128 = -a;
        let q: u128 = (n as u128) / (b as u128);
        proof {
            vstd::arithmetic::div_mod::lemma_div_is_ordered_by_denominator(
                n as int,
                1,
                b as int,
            );
            vstd::arithmetic::div_mod::lemma_div_basics(n as int);
        }
        -(q as i128)
    }
}

/// Largest `r` with `r * r <= x`.
pub fn isqrt_u128(x: u128) -> (r: u128)
    ensures
        r * r <= x,
        x < (r + 1) * (r + 1),
{
    if x == 0 {
        return 0;
    }
    let mut lo: u128 = 0;
    let mut hi: u128 = 18_446_744_073_709_551_616u128;
    proof {
        assert(hi * hi == 340_282_366_920_938_463_463_374_607_431_768_211_456int)
            by (nonlinear_arith)
            requires
                hi == 18_446_744_073_709_551_616u128,
        {
        }
    }
    while lo + 1 < hi
        invariant
            lo < hi,
            hi <= 18_446_744_073_709_551_616u128,
            lo * lo <= x,
            x < hi * hi,
        decreases hi - lo,
    {
        let mid: u128 = lo + (hi - lo) / 2;
        proof {
            assert(mid * mid <= 340_282_366_920_938_463_426_481_119_284_349_108_225u128)
                by (nonlinear_arith)
                requires
                    mid <= 18_446_744_073_709_551_615u128,
            {
            }
        }
        if mid * mid <= x {
            lo = mid;
        } else {
            hi = mid;
        }
    }
    lo
}

/// The integer contents of a vector of fixed-point values.
pub open spec fn ints(s: Seq<i64>) -> Seq<int> {
    s.map(|i: int, x: i64| x as int)
}

/// `ints` commutes with `push`.
pub proof fn lemma_ints_push(s: Seq<i64>, x: i64)
    ensures
        ints(s.push(x)) == ints(s).push(x as int),
{
    assert(ints(s.push(x)) =~= ints(s).push(x as int));
}

/// Truncating division by a divisor of magnitude at least 1 cannot grow
/// the magnitude of the dividend.
pub proof fn lemma_tdiv_magnitude(a: int, b: int)
    requires
        b >= 1,
    ensures
        tdiv(a, b) <= (if a >= 0 {
            a
        } else {
            -a
        }),
        tdiv(a, b) >= -(if a >= 0 {
            a
        } else {
            -a
        }),
{
    if a >= 0 {
        vstd::arithmetic::div_mod::lemma_div_is_ordered_by_denominator(a, 1, b);
        vstd::arithmetic::div_mod::lemma_div_basics(a);
        vstd::arithmetic::div_mod::lemma_div_pos_is_pos(a, b);
    } else {
        vstd::arithmetic::div_mod::lemma_div_is_ordered_by_denominator(-a, 1, b);
        vstd::arithmetic::div_mod::lemma_div_basics(-a);
        vstd::arithmetic::div_mod::lemma_div_pos_is_pos(-a, b);
    }
}

/// Clamp `v` to the symmetric interval `[-limit, limit]`.
pub fn clamp_i128(v: i128, limit: i128) -> (r: i128)
    requires
        limit >= 0,
    ensures
        r == clamp_spec(v as int, limit as int),
{
    if v > limit {
        limit
    } else if v < -limit {
        -limit
    } else {
        v
    }
}

/// Spec-level mirror of `clamp_i128`.
pub open spec fn clamp_spec(v: int, limit: int) -> int {
    if v > limit {
        limit
    } else if v < -limit {
        -limit
    } else {
        v
    }
}

} // verus!
