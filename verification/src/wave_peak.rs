//! Wave-peak detector.
//!
//! Detects a single excursion ("wave") of the configured polarity in a
//! filter's z-scored output, scores its shape against a half-cosine
//! template, and predicts when its mirror-image peak will recur. Wave
//! boundaries are directed zero-crossings; a completed wave is scored by
//! the magnitude of its extreme z-score and, optionally, by the Pearson
//! correlation between its raw samples and a synthesized half-period
//! cosine of matching amplitude, polarity and length.

use vstd::prelude::*;
use vstd::string::StringExecFns;

use crate::fixed::{
    clamp_i128, clamp_spec, div_trunc, ints, isqrt_u128, lemma_ints_push,
    lemma_tdiv_magnitude, tdiv, SCALE,
};
use crate::snapshot::WavePeakOutput;
use crate::stats::{
    lemma_mean_sq_bound, lemma_sqrt_floor_unique, lemma_sum_bounds, lemma_tdiv_mean_bound,
    seq_sum, sqrt_floor, StatsModel, Statistics, COUNT_LIMIT, VALUE_LIMIT,
};
use crate::trig::{cos_fp, cos_fp_spec, HALF_PI_FP, PI_FP};

verus! {

/// Longest candidate wave (in samples) the detector will accumulate; a
/// candidate that grows past this is abandoned. The cap is what keeps the
/// correlation sums inside 128-bit arithmetic.
pub const WAVE_CAP: usize = 1_000_000;

/// Direction of the excursion a detector looks for.
#[derive(Clone, Copy, PartialEq, Eq, Structural)]
pub enum WavePolarity {
    /// Wave entered on an upward zero-crossing, left on a downward one.
    Upwave,
    /// Wave entered on a downward zero-crossing, left on an upward one.
    Downwave,
}

/// First index of the minimum value of a nonempty sequence.
pub open spec fn argmin_first(s: Seq<int>) -> int
    decreases s.len(),
{
    if s.len() <= 1 {
        0
    } else {
        let p = argmin_first(s.drop_last());
        if s.last() < s[p] {
            s.len() - 1
        } else {
            p
        }
    }
}

/// `argmin_first` really is the first position of the minimum.
pub proof fn lemma_argmin_first(s: Seq<int>)
    requires
        s.len() >= 1,
    ensures
        0 <= argmin_first(s) < s.len(),
        forall|j: int| 0 <= j < s.len() ==> s[argmin_first(s)] <= #[trigger] s[j],
        forall|j: int| 0 <= j < argmin_first(s) ==> #[trigger] s[j] > s[argmin_first(s)],
    decreases s.len(),
{
    if s.len() > 1 {
        let t = s.drop_last();
        lemma_argmin_first(t);
        let p = argmin_first(t);
        assert forall|j: int| 0 <= j < s.len() - 1 implies #[trigger] s[j] >= t[p] by {
            assert(s[j] == t[j]);
            assert(t[j] >= t[p]);
        }
        if s.last() < s[p] {
            assert(s[p] == t[p]);
        } else {
            assert forall|j: int| 0 <= j < p implies #[trigger] s[j] > s[p] by {
                assert(s[j] == t[j]);
                assert(t[j] > t[p]);
            }
        }
    }
}

/// First index of the minimum of a nonempty vector.
fn find_wave_minima(wave: &Vec<i64>) -> (r: usize)
    requires
        wave.len() >= 1,
    ensures
        r == argmin_first(ints(wave@)),
        r < wave.len(),
{
    let mut best: usize = 0;
    let mut k: usize = 1;
    while k < wave.len()
        invariant
            1 <= k <= wave.len(),
            best < k,
            best == argmin_first(ints(wave@).take(k as int)),
        decreases wave.len() - k,
    {
        proof {
            let pre = ints(wave@).take(k as int + 1);
            assert(pre.drop_last() =~= ints(wave@).take(k as int));
            lemma_argmin_first(ints(wave@).take(k as int));
        }
        if wave[k] < wave[best] {
            best = k;
        }
        k = k + 1;
    }
    proof {
        assert(ints(wave@).take(wave@.len() as int) =~= ints(wave@));
    }
    best
}

/// Sum of pairwise products of deviations from the two means.
pub open spec fn dev_dot(x: Seq<int>, y: Seq<int>, mx: int, my: int) -> int
    decreases x.len(),
{
    if x.len() == 0 || y.len() == 0 {
        0
    } else {
        dev_dot(x.drop_last(), y.drop_last(), mx, my) + (x.last() - mx) * (y.last() - my)
    }
}

/// Bounds on the deviation dot product of two bounded sequences.
proof fn lemma_dev_dot_bounds(x: Seq<int>, y: Seq<int>, mx: int, my: int, limit: int)
    requires
        x.len() == y.len(),
        limit >= 0,
        forall|i: int| 0 <= i < x.len() ==> -limit <= #[trigger] x[i] <= limit,
        forall|i: int| 0 <= i < y.len() ==> -limit <= #[trigger] y[i] <= limit,
        -limit <= mx <= limit,
        -limit <= my <= limit,
    ensures
        -((x.len() as int) * (4 * (limit * limit))) <= dev_dot(x, y, mx, my) <= (x.len() as int)
            * (4 * (limit * limit)),
    decreases x.len(),
{
    if x.len() == 0 {
    } else {
        let xt = x.drop_last();
        let yt = y.drop_last();
        assert(forall|i: int| 0 <= i < xt.len() ==> -limit <= #[trigger] xt[i] <= limit);
        assert(forall|i: int| 0 <= i < yt.len() ==> -limit <= #[trigger] yt[i] <= limit);
        lemma_dev_dot_bounds(xt, yt, mx, my, limit);
        assert(-(4 * (limit * limit)) <= (x.last() - mx) * (y.last() - my) <= 4 * (limit
            * limit)) by (nonlinear_arith)
            requires
                -2 * limit <= x.last() - mx <= 2 * limit,
                -2 * limit <= y.last() - my <= 2 * limit,
                limit >= 0,
        {
        }
        assert(-((x.len() as int) * (4 * (limit * limit))) <= dev_dot(x, y, mx, my) <= (
        x.len() as int) * (4 * (limit * limit))) by (nonlinear_arith)
            requires
                dev_dot(x, y, mx, my) == dev_dot(xt, yt, mx, my) + (x.last() - mx) * (y.last()
                    - my),
                -((xt.len() as int) * (4 * (limit * limit))) <= dev_dot(xt, yt, mx, my) <= (
                xt.len() as int) * (4 * (limit * limit)),
                -(4 * (limit * limit)) <= (x.last() - mx) * (y.last() - my) <= 4 * (limit
                    * limit),
                x.len() == xt.len() + 1,
        {
        }
    }
}

/// The deviation dot product of a sequence with itself is nonnegative.
proof fn lemma_dev_dot_self_nonneg(x: Seq<int>, mx: int)
    ensures
        dev_dot(x, x, mx, mx) >= 0,
    decreases x.len(),
{
    if x.len() > 0 {
        lemma_dev_dot_self_nonneg(x.drop_last(), mx);
        assert((x.last() - mx) * (x.last() - mx) >= 0) by (nonlinear_arith);
    }
}

/// Sum of the values of a vector, as a 128-bit integer.
fn sum_exec(x: &Vec<i64>) -> (r: i128)
    requires
        x.len() <= WAVE_CAP,
        forall|i: int| 0 <= i < x.len() ==> -VALUE_LIMIT <= #[trigger] x@[i] <= VALUE_LIMIT,
    ensures
        r == seq_sum(ints(x@)),
{
    proof {
        assert(forall|i: int|
            0 <= i < ints(x@).len() ==> -(VALUE_LIMIT as int) <= #[trigger] ints(x@)[i]
                <= VALUE_LIMIT as int);
    }
    let mut acc: i128 = 0;
    let mut k: usize = 0;
    while k < x.len()
        invariant
            k <= x.len(),
            x.len() <= WAVE_CAP,
            forall|i: int|
                0 <= i < ints(x@).len() ==> -(VALUE_LIMIT as int) <= #[trigger] ints(x@)[i]
                    <= VALUE_LIMIT as int,
            acc == seq_sum(ints(x@).take(k as int)),
            -((k as int) * (VALUE_LIMIT as int)) <= acc <= (k as int) * (VALUE_LIMIT as int),
        decreases x.len() - k,
    {
        proof {
            let pre = ints(x@).take(k as int + 1);
            assert(pre.drop_last() =~= ints(x@).take(k as int));
            assert((k as int + 1) * (VALUE_LIMIT as int) == (k as int) * (VALUE_LIMIT as int)
                + VALUE_LIMIT as int) by (nonlinear_arith);
            assert(-(VALUE_LIMIT as int) <= ints(x@)[k as int] <= VALUE_LIMIT as int);
        }
        acc = acc + x[k] as i128;
        k = k + 1;
    }
    proof {
        assert(ints(x@).take(x@.len() as int) =~= ints(x@));
    }
    acc
}

/// Truncating mean of a nonempty vector.
fn mean_exec(x: &Vec<i64>) -> (r: i64)
    requires
        1 <= x.len() <= WAVE_CAP,
        forall|i: int| 0 <= i < x.len() ==> -VALUE_LIMIT <= #[trigger] x@[i] <= VALUE_LIMIT,
    ensures
        r == tdiv(seq_sum(ints(x@)), x@.len() as int),
        -VALUE_LIMIT <= r <= VALUE_LIMIT,
{
    let s = sum_exec(x);
    proof {
        assert(forall|i: int|
            0 <= i < ints(x@).len() ==> -(VALUE_LIMIT as int) <= #[trigger] ints(x@)[i]
                <= VALUE_LIMIT as int);
        lemma_sum_bounds(ints(x@), VALUE_LIMIT as int);
        lemma_tdiv_mean_bound(seq_sum(ints(x@)), x@.len() as int, VALUE_LIMIT as int);
        assert((x@.len() as int) * (VALUE_LIMIT as int) <= 1_000_000int * 1_000_000_000_000int)
            by (nonlinear_arith)
            requires
                0 <= x@.len() as int <= 1_000_000,
                VALUE_LIMIT == 1_000_000_000_000,
        {
        }
    }
    div_trunc(s, x.len() as i128) as i64
}

/// Deviation dot product of two equally long vectors around the two means.
fn dev_dot_exec(x: &Vec<i64>, y: &Vec<i64>, mx: i64, my: i64) -> (r: i128)
    requires
        x.len() == y.len(),
        x.len() <= WAVE_CAP,
        forall|i: int| 0 <= i < x.len() ==> -VALUE_LIMIT <= #[trigger] x@[i] <= VALUE_LIMIT,
        forall|i: int| 0 <= i < y.len() ==> -VALUE_LIMIT <= #[trigger] y@[i] <= VALUE_LIMIT,
        -VALUE_LIMIT <= mx <= VALUE_LIMIT,
        -VALUE_LIMIT <= my <= VALUE_LIMIT,
    ensures
        r == dev_dot(ints(x@), ints(y@), mx as int, my as int),
        -((x@.len() as int) * (4 * ((VALUE_LIMIT as int) * (VALUE_LIMIT as int)))) <= r,
        r <= (x@.len() as int) * (4 * ((VALUE_LIMIT as int) * (VALUE_LIMIT as int))),
{
    proof {
        assert(forall|i: int|
            0 <= i < ints(x@).len() ==> -(VALUE_LIMIT as int) <= #[trigger] ints(x@)[i]
                <= VALUE_LIMIT as int);
        assert(forall|i: int|
            0 <= i < ints(y@).len() ==> -(VALUE_LIMIT as int) <= #[trigger] ints(y@)[i]
                <= VALUE_LIMIT as int);
        lemma_dev_dot_bounds(ints(x@), ints(y@), mx as int, my as int, VALUE_LIMIT as int);
    }
    let mut acc: i128 = 0;
    let mut k: usize = 0;
    while k < x.len()
        invariant
            k <= x.len(),
            x.len() == y.len(),
            x.len() <= WAVE_CAP,
            forall|i: int|
                0 <= i < ints(x@).len() ==> -(VALUE_LIMIT as int) <= #[trigger] ints(x@)[i]
                    <= VALUE_LIMIT as int,
            forall|i: int|
                0 <= i < ints(y@).len() ==> -(VALUE_LIMIT as int) <= #[trigger] ints(y@)[i]
                    <= VALUE_LIMIT as int,
            -VALUE_LIMIT <= mx <= VALUE_LIMIT,
            -VALUE_LIMIT <= my <= VALUE_LIMIT,
            acc == dev_dot(ints(x@).take(k as int), ints(y@).take(k as int), mx as int,
                my as int),
            -((k as int) * (4 * ((VALUE_LIMIT as int) * (VALUE_LIMIT as int)))) <= acc,
            acc <= (k as int) * (4 * ((VALUE_LIMIT as int) * (VALUE_LIMIT as int))),
        decreases x.len() - k,
    {
        proof {
            let prex = ints(x@).take(k as int + 1);
            let prey = ints(y@).take(k as int + 1);
            assert(prex.drop_last() =~= ints(x@).take(k as int));
            assert(prey.drop_last() =~= ints(y@).take(k as int));
            assert(-(VALUE_LIMIT as int) <= ints(x@)[k as int] <= VALUE_LIMIT as int);
            assert(-(VALUE_LIMIT as int) <= ints(y@)[k as int] <= VALUE_LIMIT as int);
            assert(ints(x@)[k as int] == x@[k as int] as int);
            assert(ints(y@)[k as int] == y@[k as int] as int);
            assert((k as int + 1) * (4 * ((VALUE_LIMIT as int) * (VALUE_LIMIT as int))) == (
            k as int) * (4 * ((VALUE_LIMIT as int) * (VALUE_LIMIT as int))) + 4 * ((VALUE_LIMIT
                as int) * (VALUE_LIMIT as int))) by (nonlinear_arith);
        }
        let dx: i128 = x[k] as i128 - mx as i128;
        let dy: i128 = y[k] as i128 - my as i128;
        proof {
            assert(-(4 * ((VALUE_LIMIT as int) * (VALUE_LIMIT as int))) <= (dx as int) * (
            dy as int) <= 4 * ((VALUE_LIMIT as int) * (VALUE_LIMIT as int)))
                by (nonlinear_arith)
                requires
                    -(2 * (VALUE_LIMIT as int)) <= dx as int <= 2 * (VALUE_LIMIT as int),
                    -(2 * (VALUE_LIMIT as int)) <= dy as int <= 2 * (VALUE_LIMIT as int),
                    VALUE_LIMIT as int >= 0,
            {
            }
            assert(4 * ((VALUE_LIMIT as int) * (VALUE_LIMIT as int))
                == 4_000_000_000_000_000_000_000_000int) by (nonlinear_arith)
                requires
                    VALUE_LIMIT == 1_000_000_000_000,
            {
            }
        }
        acc = acc + dx * dy;
        k = k + 1;
    }
    proof {
        assert(ints(x@).take(x@.len() as int) =~= ints(x@));
        assert(ints(y@).take(y@.len() as int) =~= ints(y@));
    }
    acc
}

/// Pearson correlation of two equally long integer sequences, in fixed
/// point: covariance over the product of the standard deviations, all
/// under truncating division, saturated to `[-2 * SCALE, 2 * SCALE]`;
/// 0 when either standard deviation vanishes.
pub open spec fn pearson_fp(x: Seq<int>, y: Seq<int>) -> int {
    let n = x.len() as int;
    let mx = tdiv(seq_sum(x), n);
    let my = tdiv(seq_sum(y), n);
    let cov = tdiv(dev_dot(x, y, mx, my), n);
    let vx = dev_dot(x, x, mx, mx) / n;
    let vy = dev_dot(y, y, my, my) / n;
    let sx = sqrt_floor(vx as nat) as int;
    let sy = sqrt_floor(vy as nat) as int;
    if sx == 0 || sy == 0 {
        0
    } else {
        clamp_spec(tdiv(cov * SCALE as int, sx * sy), 2 * SCALE as int)
    }
}

/// Standard deviation (times `sqrt(n)`-free form) used by the correlation:
/// square root of the mean squared deviation.
fn std_dev_exec(x: &Vec<i64>, mx: i64) -> (r: u64)
    requires
        1 <= x.len() <= WAVE_CAP,
        forall|i: int| 0 <= i < x.len() ==> -VALUE_LIMIT <= #[trigger] x@[i] <= VALUE_LIMIT,
        -VALUE_LIMIT <= mx <= VALUE_LIMIT,
    ensures
        r as int == sqrt_floor((dev_dot(ints(x@), ints(x@), mx as int, mx as int)
            / x@.len() as int) as nat) as int,
        r <= 2_000_000_000_000u64,
{
    let dd = dev_dot_exec(x, x, mx, mx);
    proof {
        lemma_dev_dot_self_nonneg(ints(x@), mx as int);
        assert(4 * ((VALUE_LIMIT as int) * (VALUE_LIMIT as int)) == (2 * VALUE_LIMIT as int) * (
        2 * VALUE_LIMIT as int)) by (nonlinear_arith);
        lemma_mean_sq_bound(dd as int, x@.len() as int, 2 * VALUE_LIMIT as int);
    }
    let v: u128 = (dd as u128) / (x.len() as u128);
    let s = isqrt_u128(v);
    proof {
        lemma_sqrt_floor_unique(v as nat, s as nat);
        assert(s <= 2_000_000_000_000u64) by (nonlinear_arith)
            requires
                (s as int) * (s as int) <= v as int,
                v as int <= (2 * VALUE_LIMIT as int) * (2 * VALUE_LIMIT as int),
                VALUE_LIMIT == 1_000_000_000_000,
                s >= 0,
        {
        }
    }
    s as u64
}

/// Pearson correlation of two equally long bounded vectors, fixed point.
fn pearson_exec(x: &Vec<i64>, y: &Vec<i64>) -> (r: i64)
    requires
        x.len() == y.len(),
        1 <= x.len() <= WAVE_CAP,
        forall|i: int| 0 <= i < x.len() ==> -VALUE_LIMIT <= #[trigger] x@[i] <= VALUE_LIMIT,
        forall|i: int| 0 <= i < y.len() ==> -VALUE_LIMIT <= #[trigger] y@[i] <= VALUE_LIMIT,
    ensures
        r == pearson_fp(ints(x@), ints(y@)),
        -2 * SCALE as int <= r <= 2 * SCALE as int,
{
    let mx = mean_exec(x);
    let my = mean_exec(y);
    let sx = std_dev_exec(x, mx);
    let sy = std_dev_exec(y, my);
    if sx == 0 || sy == 0 {
        return 0;
    }
    let dd = dev_dot_exec(x, y, mx, my);
    proof {
        lemma_tdiv_mean_bound(
            dev_dot(ints(x@), ints(y@), mx as int, my as int),
            x@.len() as int,
            4 * ((VALUE_LIMIT as int) * (VALUE_LIMIT as int)),
        );
        assert((x@.len() as int) * (4 * ((VALUE_LIMIT as int) * (VALUE_LIMIT as int)))
            <= 4_000_000_000_000_000_000_000_000_000_000int) by (nonlinear_arith)
            requires
                0 <= x@.len() as int <= 1_000_000,
                VALUE_LIMIT == 1_000_000_000_000,
        {
        }
        assert(4 * ((VALUE_LIMIT as int) * (VALUE_LIMIT as int))
            == 4_000_000_000_000_000_000_000_000int) by (nonlinear_arith)
            requires
                VALUE_LIMIT == 1_000_000_000_000,
        {
        }
    }
    let cov = div_trunc(dd, x.len() as i128);
    proof {
        assert(-(4_000_000_000_000_000_000_000_000_000_000int) <= (cov as int) * (SCALE as int)
            <= 4_000_000_000_000_000_000_000_000_000_000int) by (nonlinear_arith)
            requires
                -(4_000_000_000_000_000_000_000_000int) <= cov as int
                    <= 4_000_000_000_000_000_000_000_000int,
                SCALE == 1_000_000,
        {
        }
        assert((sx as int) * (sy as int) >= 1 && (sx as int) * (sy as int)
            <= 4_000_000_000_000_000_000_000_000int) by (nonlinear_arith)
            requires
                1 <= sx as int <= 2_000_000_000_000int,
                1 <= sy as int <= 2_000_000_000_000int,
        {
        }
    }
    let num: i128 = cov * (SCALE as i128);
    let den: i128 = (sx as i128) * (sy as i128);
    let raw = div_trunc(num, den);
    proof {
        lemma_tdiv_magnitude(num as int, den as int);
    }
    clamp_i128(raw, 2_000_000) as i64
}

/// Value of the half-cosine template at position `i`: the template's two
/// halves are independently phase-mapped, the pre-peak part over
/// `[pi/2, pi)` and the post-peak part over `[pi, 3*pi/2)`, so that the
/// template peaks (with the wave's polarity and raw peak amplitude) at the
/// wave's own peak position.
pub open spec fn template_at(up: bool, amp: int, peak: int, len: int, i: int) -> int {
    let h1 = peak + 1;
    let h2 = len - h1;
    let sa = if up {
        amp
    } else {
        -amp
    };
    let t = if i < h1 {
        HALF_PI_FP as int + (i * HALF_PI_FP as int) / h1
    } else {
        PI_FP as int + ((i - h1) * HALF_PI_FP as int) / h2
    };
    tdiv(sa * cos_fp_spec(t), SCALE as int)
}

/// The whole template, anchored at `peak` and matching the wave's length.
pub open spec fn cosine_template(up: bool, amp: int, peak: int, len: int) -> Seq<int> {
    Seq::new(len as nat, |i: int| template_at(up, amp, peak, len, i))
}

/// A fraction `(i * HALF_PI_FP) / h` of a quarter turn never exceeds a
/// quarter turn when `i <= h`.
proof fn lemma_phase_fraction(i: int, h: int)
    requires
        0 <= i <= h,
        1 <= h,
    ensures
        0 <= (i * HALF_PI_FP as int) / h <= HALF_PI_FP as int,
{
    assert(0 <= i * HALF_PI_FP as int <= h * HALF_PI_FP as int) by (nonlinear_arith)
        requires
            0 <= i <= h,
            HALF_PI_FP as int > 0,
    {
    }
    vstd::arithmetic::div_mod::lemma_div_pos_is_pos(i * HALF_PI_FP as int, h);
    vstd::arithmetic::div_mod::lemma_div_is_ordered(
        i * HALF_PI_FP as int,
        h * HALF_PI_FP as int,
        h,
    );
    vstd::arithmetic::div_mod::lemma_div_multiples_vanish(HALF_PI_FP as int, h);
}

/// Build the adjusted half-cosine template for a completed wave.
fn construct_adjusted_cosine_wave(up: bool, amp: i64, peak_idx: usize, len: usize) -> (r: Vec<
    i64,
>)
    requires
        peak_idx < len,
        len <= WAVE_CAP,
        -VALUE_LIMIT <= amp <= VALUE_LIMIT,
    ensures
        r@.len() == len,
        ints(r@) == cosine_template(up, amp as int, peak_idx as int, len as int),
        forall|i: int| 0 <= i < len ==> -VALUE_LIMIT <= #[trigger] r@[i] <= VALUE_LIMIT,
{
    let h1: usize = peak_idx + 1;
    let h2: usize = len - h1;
    let sa: i64 = if up {
        amp
    } else {
        -amp
    };
    let mut out: Vec<i64> = Vec::new();
    let mut i: usize = 0;
    while i < len
        invariant
            i <= len,
            len <= WAVE_CAP,
            h1 == peak_idx + 1,
            h2 == len - h1,
            peak_idx < len,
            -VALUE_LIMIT <= amp <= VALUE_LIMIT,
            sa as int == (if up {
                amp as int
            } else {
                -(amp as int)
            }),
            out@.len() == i,
            forall|j: int|
                0 <= j < i ==> #[trigger] out@[j] as int == template_at(up, amp as int,
                    peak_idx as int, len as int, j),
            forall|j: int| 0 <= j < i ==> -VALUE_LIMIT <= #[trigger] out@[j] <= VALUE_LIMIT,
        decreases len - i,
    {
        let t: i64 = if i < h1 {
            proof {
                lemma_phase_fraction(i as int, h1 as int);
            }
            let frac: u64 = ((i as u64) * 1_570_796u64) / (h1 as u64);
            1_570_796i64 + frac as i64
        } else {
            proof {
                lemma_phase_fraction(i as int - h1 as int, h2 as int);
            }
            let frac: u64 = (((i - h1) as u64) * 1_570_796u64) / (h2 as u64);
            3_141_593i64 + frac as i64
        };
        let c: i64 = cos_fp(t);
        proof {
            assert(-((SCALE as int) * (VALUE_LIMIT as int)) <= (sa as int) * (c as int) <= (
            SCALE as int) * (VALUE_LIMIT as int)) by (nonlinear_arith)
                requires
                    -(VALUE_LIMIT as int) <= sa as int <= VALUE_LIMIT as int,
                    -(SCALE as int) <= c as int <= SCALE as int,
                    SCALE as int >= 0,
                    VALUE_LIMIT as int >= 0,
            {
            }
            assert((SCALE as int) * (VALUE_LIMIT as int) == 1_000_000_000_000_000_000int)
                by (nonlinear_arith)
                requires
                    SCALE == 1_000_000,
                    VALUE_LIMIT == 1_000_000_000_000,
            {
            }
        }
        let prod: i128 = (sa as i128) * (c as i128);
        proof {
            lemma_tdiv_mean_bound(prod as int, SCALE as int, VALUE_LIMIT as int);
        }
        let v: i64 = div_trunc(prod, 1_000_000) as i64;
        out.push(v);
        i = i + 1;
    }
    proof {
        assert(ints(out@) =~= cosine_template(up, amp as int, peak_idx as int, len as int));
    }
    out
}

/// Magnitude of an integer.
pub open spec fn iabs(x: int) -> int {
    if x < 0 {
        -x
    } else {
        x
    }
}

/// Construction parameters of a wave-peak detector. Thresholds are
/// fixed-point values scaled by `SCALE`; the optional wave-length limits
/// are accepted for configuration compatibility but not applied.
pub struct WavePeakDetectorConfig {
    pub id: String,
    pub filter_id: String,
    pub z_score_threshold: i64,
    pub sinusoidness_threshold: i64,
    pub check_sinusoidness: bool,
    pub wave_polarity: WavePolarity,
    pub min_wave_length_ms: Option<u64>,
    pub max_wave_length_ms: Option<u64>,
}

/// Result-snapshot keys owned by a wave-peak detector.
pub struct Keys {
    pub detected: String,
    pub wave_start_index: String,
    pub wave_end_index: String,
    pub predicted_next_maxima_index: String,
    pub peak_z_score_amplitude: String,
    pub sinusoidness: String,
    pub statistics_z_score: String,
}

impl Keys {
    /// Build the namespaced keys `detectors:<id>:...`.
    pub fn new(id: &str) -> (r: Keys)
        ensures
            r.detected@ == "detectors:"@ + id@ + ":detected"@,
            r.predicted_next_maxima_index@ == "detectors:"@ + id@
                + ":predicted_next_maxima_index"@,
            r.statistics_z_score@ == "detectors:"@ + id@ + ":statistics:z_score"@,
    {
        Keys {
            detected: crate::threshold::namespaced(id, ":detected"),
            wave_start_index: crate::threshold::namespaced(id, ":wave_start_index"),
            wave_end_index: crate::threshold::namespaced(id, ":wave_end_index"),
            predicted_next_maxima_index: crate::threshold::namespaced(
                id,
                ":predicted_next_maxima_index",
            ),
            peak_z_score_amplitude: crate::threshold::namespaced(id, ":peak_z_score_amplitude"),
            sinusoidness: crate::threshold::namespaced(id, ":sinusoidness"),
            statistics_z_score: crate::threshold::namespaced(id, ":statistics:z_score"),
        }
    }
}

/// Mathematical model of a wave-peak detector.
pub struct WavePeakModel {
    pub z_score_threshold: int,
    pub sinusoidness_threshold: int,
    pub check_sinusoidness: bool,
    pub upwave: bool,
    pub stats: StatsModel,
    pub last_sample: int,
    pub is_wave: bool,
    pub zs: Seq<int>,
    pub raws: Seq<int>,
    pub start: Option<int>,
}

/// Whether the current sample is a directed zero-crossing that delimits a
/// wave: entry and exit crossings have opposite directions, and both flip
/// with the configured polarity.
pub open spec fn crossing(upwave: bool, is_wave: bool, last: int, cur: int) -> bool {
    let up = last <= 0 && cur > 0;
    let down = last >= 0 && cur < 0;
    if upwave {
        if is_wave {
            down
        } else {
            up
        }
    } else {
        if is_wave {
            up
        } else {
            down
        }
    }
}

impl WavePeakModel {
    /// Structural well-formedness carried across samples.
    pub open spec fn wf(self) -> bool {
        &&& self.stats.wf()
        &&& self.zs.len() == self.raws.len()
        &&& self.zs.len() <= WAVE_CAP
        &&& forall|i: int|
            0 <= i < self.raws.len() ==> -(VALUE_LIMIT as int) <= #[trigger] self.raws[i]
                <= VALUE_LIMIT as int
        &&& forall|i: int|
            0 <= i < self.zs.len() ==> -2 * (VALUE_LIMIT as int) * (SCALE as int)
                <= #[trigger] self.zs[i] <= 2 * (VALUE_LIMIT as int) * (SCALE as int)
        &&& -(VALUE_LIMIT as int) <= self.last_sample <= VALUE_LIMIT as int
        &&& (self.is_wave ==> self.start is Some && self.zs.len() >= 1)
        &&& (!self.is_wave ==> self.start is None && self.zs.len() == 0)
        &&& (match self.start {
            Some(s) => 0 <= s < COUNT_LIMIT as int,
            None => true,
        })
    }

    /// Score a completed wave: reject short waves, then waves whose extreme
    /// z-score magnitude is below the threshold, then (when required)
    /// waves whose shape correlates poorly with the half-cosine template.
    /// Returns the detection flag, the reported peak amplitude, and the
    /// reported correlation.
    pub open spec fn analyze_wave(self) -> (bool, Option<int>, Option<int>) {
        if self.zs.len() < 4 {
            (false, None, None)
        } else {
            let zi = argmin_first(self.zs);
            let amp = iabs(self.zs[zi]);
            if amp < self.z_score_threshold {
                (false, Some(amp), None)
            } else if self.check_sinusoidness {
                let ri = argmin_first(self.raws);
                let template = cosine_template(self.upwave, self.raws[ri], ri,
                    self.raws.len() as int);
                let corr = pearson_fp(self.raws, template);
                if corr < self.sinusoidness_threshold {
                    (false, Some(amp), Some(corr))
                } else {
                    (true, Some(amp), Some(corr))
                }
            } else {
                (true, Some(amp), None)
            }
        }
    }

    /// The whole detector state and output after one sample. The raw and
    /// filtered values of the sample and its global index come in; the new
    /// state and the output record come out.
    pub open spec fn step(self, raw: int, filtered: int, index: int) -> (
        WavePeakModel,
        WavePeakOutput,
    ) {
        let stats = self.stats.step(filtered);
        let z = stats.z_score;
        let cross = crossing(self.upwave, self.is_wave, self.last_sample, filtered);
        let is_wave1 = if cross {
            !self.is_wave
        } else {
            self.is_wave
        };
        let start1 = if cross && !self.is_wave {
            Some(index)
        } else {
            self.start
        };
        let overlong = is_wave1 && self.zs.len() >= WAVE_CAP;
        let zs1 = if overlong {
            Seq::<int>::empty()
        } else if is_wave1 {
            self.zs.push(z)
        } else {
            self.zs
        };
        let raws1 = if overlong {
            Seq::<int>::empty()
        } else if is_wave1 {
            self.raws.push(raw)
        } else {
            self.raws
        };
        let is_wave2 = if overlong {
            false
        } else {
            is_wave1
        };
        let start2 = if overlong {
            Option::<int>::None
        } else {
            start1
        };
        if !is_wave2 && zs1.len() > 0 {
            let probe = WavePeakModel { zs: zs1, raws: raws1, ..self };
            let scored = probe.analyze_wave();
            let det = scored.0;
            let out = WavePeakOutput {
                detected: det,
                wave_start_index: if det {
                    match start2 {
                        Some(s) => Some(s as u64),
                        None => None,
                    }
                } else {
                    None
                },
                wave_end_index: if det {
                    Some(index as u64)
                } else {
                    None
                },
                predicted_next_maxima_index: if det {
                    Some((index + zs1.len() / 2) as u64)
                } else {
                    None
                },
                peak_z_score_amplitude: match scored.1 {
                    Some(a) => Some(a as i64),
                    None => None,
                },
                sinusoidness: if self.check_sinusoidness {
                    match scored.2 {
                        Some(c) => Some(c as i64),
                        None => None,
                    }
                } else {
                    None
                },
                z_score: z as i64,
            };
            let next = WavePeakModel {
                stats,
                last_sample: filtered,
                is_wave: false,
                zs: Seq::empty(),
                raws: Seq::empty(),
                start: None,
                ..self
            };
            (next, out)
        } else {
            let out = WavePeakOutput {
                detected: false,
                wave_start_index: None,
                wave_end_index: None,
                predicted_next_maxima_index: None,
                peak_z_score_amplitude: None,
                sinusoidness: None,
                z_score: z as i64,
            };
            let next = WavePeakModel {
                stats,
                last_sample: filtered,
                is_wave: is_wave2,
                zs: zs1,
                raws: raws1,
                start: start2,
                ..self
            };
            (next, out)
        }
    }
}

/// Detector for a single directed excursion in a filter's z-scored output.
pub struct WavePeakDetector {
    config: WavePeakDetectorConfig,
    statistics: Statistics,
    last_sample: i64,
    is_wave: bool,
    ongoing_wave_z_scores: Vec<i64>,
    ongoing_wave_raw: Vec<i64>,
    wave_start_index: Option<u64>,
    keys: Keys,
}

impl View for WavePeakDetector {
    type V = WavePeakModel;

    closed spec fn view(&self) -> WavePeakModel {
        WavePeakModel {
            z_score_threshold: self.config.z_score_threshold as int,
            sinusoidness_threshold: self.config.sinusoidness_threshold as int,
            check_sinusoidness: self.config.check_sinusoidness,
            upwave: self.config.wave_polarity == WavePolarity::Upwave,
            stats: self.statistics@,
            last_sample: self.last_sample as int,
            is_wave: self.is_wave,
            zs: ints(self.ongoing_wave_z_scores@),
            raws: ints(self.ongoing_wave_raw@),
            start: match self.wave_start_index {
                Some(s) => Some(s as int),
                None => None,
            },
        }
    }
}

impl WavePeakDetector {
    /// Identifier under which the processor registers this detector.
    pub fn id(&self) -> (r: &String)
        ensures
            r@ == self.spec_id(),
    {
        &self.config.id
    }

    /// The detector's identifier (spec-level).
    pub closed spec fn spec_id(&self) -> Seq<char> {
        self.config.id@
    }

    /// Identifier of the filter whose output this detector consumes.
    pub fn filter_id(&self) -> (r: &String)
        ensures
            r@ == self.spec_filter_id(),
    {
        &self.config.filter_id
    }

    /// The source filter's identifier (spec-level).
    pub closed spec fn spec_filter_id(&self) -> Seq<char> {
        self.config.filter_id@
    }

    /// The result-snapshot keys this detector owns.
    pub fn keys(&self) -> &Keys {
        &self.keys
    }

    /// The running statistics over this detector's input, for diagnostics.
    pub fn statistics(&self) -> (r: &Statistics)
        ensures
            r@ == self@.stats,
    {
        &self.statistics
    }

    /// Build a detector in the idle state.
    pub fn new(config: WavePeakDetectorConfig) -> (r: WavePeakDetector)
        ensures
            r@.wf(),
            r@.z_score_threshold == config.z_score_threshold as int,
            r@.sinusoidness_threshold == config.sinusoidness_threshold as int,
            r@.check_sinusoidness == config.check_sinusoidness,
            r@.upwave == (config.wave_polarity == WavePolarity::Upwave),
            r@.stats.count == 0,
            r@.stats.history == Seq::<int>::empty(),
            r@.last_sample == 0,
            !r@.is_wave,
            r@.zs == Seq::<int>::empty(),
            r@.raws == Seq::<int>::empty(),
            r@.start is None,
            r.spec_id() == config.id@,
            r.spec_filter_id() == config.filter_id@,
    {
        let keys = Keys::new(config.id.as_str());
        let r = WavePeakDetector {
            config,
            statistics: Statistics::new(),
            last_sample: 0,
            is_wave: false,
            ongoing_wave_z_scores: Vec::new(),
            ongoing_wave_raw: Vec::new(),
            wave_start_index: None,
            keys,
        };
        proof {
            assert(r@.zs =~= Seq::<int>::empty());
            assert(r@.raws =~= Seq::<int>::empty());
        }
        r
    }

    /// Run the detector for one sample: update the statistics with the
    /// filtered value, handle a directed zero-crossing, accumulate the
    /// ongoing wave, and score and clear a wave that just ended.
    pub fn process_sample(&mut self, raw_sample: i64, filtered_sample: i64, index: u64) -> (r:
        WavePeakOutput)
        requires
            old(self)@.wf(),
            old(self)@.stats.count < COUNT_LIMIT,
            -VALUE_LIMIT <= raw_sample <= VALUE_LIMIT,
            -VALUE_LIMIT <= filtered_sample <= VALUE_LIMIT,
            index < COUNT_LIMIT,
        ensures
            final(self)@.wf(),
            final(self)@ == old(self)@.step(raw_sample as int, filtered_sample as int,
                index as int).0,
            r == old(self)@.step(raw_sample as int, filtered_sample as int, index as int).1,
            final(self).spec_id() == old(self).spec_id(),
            final(self).spec_filter_id() == old(self).spec_filter_id(),
    {
        self.statistics.update(filtered_sample);
        let z = self.statistics.z_score();
        let is_upcrossing = self.last_sample <= 0 && filtered_sample > 0;
        let is_downcrossing = self.last_sample >= 0 && filtered_sample < 0;
        let entering = if self.config.wave_polarity == WavePolarity::Upwave {
            is_upcrossing
        } else {
            is_downcrossing
        };
        let leaving = if self.config.wave_polarity == WavePolarity::Upwave {
            is_downcrossing
        } else {
            is_upcrossing
        };
        let cross = if self.is_wave {
            leaving
        } else {
            entering
        };
        if cross {
            if self.is_wave {
                self.is_wave = false;
            } else {
                self.is_wave = true;
                self.wave_start_index = Some(index);
            }
        }
        if self.is_wave {
            if self.ongoing_wave_z_scores.len() < WAVE_CAP {
                self.ongoing_wave_z_scores.push(z);
                self.ongoing_wave_raw.push(raw_sample);
                proof {
                    lemma_ints_push(old(self).ongoing_wave_z_scores@, z);
                    lemma_ints_push(old(self).ongoing_wave_raw@, raw_sample);
                }
            } else {
                self.clear_wave_data();
                self.is_wave = false;
            }
        }
        let out: WavePeakOutput;
        if !self.is_wave && self.ongoing_wave_z_scores.len() > 0 {
            let scored = self.analyze_wave();
            let detected = scored.0;
            if detected {
                let half_period = self.ongoing_wave_z_scores.len() / 2;
                let predicted: u64 = index + (half_period as u64);
                out = WavePeakOutput {
                    detected: true,
                    wave_start_index: self.wave_start_index,
                    wave_end_index: Some(index),
                    predicted_next_maxima_index: Some(predicted),
                    peak_z_score_amplitude: scored.1,
                    sinusoidness: if self.config.check_sinusoidness {
                        scored.2
                    } else {
                        None
                    },
                    z_score: z,
                };
            } else {
                out = WavePeakOutput {
                    detected: false,
                    wave_start_index: None,
                    wave_end_index: None,
                    predicted_next_maxima_index: None,
                    peak_z_score_amplitude: scored.1,
                    sinusoidness: if self.config.check_sinusoidness {
                        scored.2
                    } else {
                        None
                    },
                    z_score: z,
                };
            }
            self.clear_wave_data();
        } else {
            out = WavePeakOutput {
                detected: false,
                wave_start_index: None,
                wave_end_index: None,
                predicted_next_maxima_index: None,
                peak_z_score_amplitude: None,
                sinusoidness: None,
                z_score: z,
            };
        }
        self.last_sample = filtered_sample;
        out
    }

    /// Score the accumulated wave; does not clear it.
    fn analyze_wave(&self) -> (r: (bool, Option<i64>, Option<i64>))
        requires
            self@.zs.len() == self@.raws.len(),
            1 <= self@.zs.len() <= WAVE_CAP,
            forall|i: int|
                0 <= i < self@.raws.len() ==> -(VALUE_LIMIT as int) <= #[trigger] self@.raws[i]
                    <= VALUE_LIMIT as int,
            forall|i: int|
                0 <= i < self@.zs.len() ==> -2 * (VALUE_LIMIT as int) * (SCALE as int)
                    <= #[trigger] self@.zs[i] <= 2 * (VALUE_LIMIT as int) * (SCALE as int),
        ensures
            ({
                let spec = self@.analyze_wave();
                &&& r.0 == spec.0
                &&& (match (r.1, spec.1) {
                    (Some(a), Some(b)) => a as int == b,
                    (None, None) => true,
                    _ => false,
                })
                &&& (match (r.2, spec.2) {
                    (Some(a), Some(b)) => a as int == b,
                    (None, None) => true,
                    _ => false,
                })
            }),
    {
        let wave_length = self.ongoing_wave_z_scores.len();
        if wave_length < 4 {
            return (false, None, None);
        }
        let zi = find_wave_minima(&self.ongoing_wave_z_scores);
        let zv = self.ongoing_wave_z_scores[zi];
        proof {
            lemma_argmin_first(self@.zs);
            assert(self@.zs[zi as int] == self.ongoing_wave_z_scores@[zi as int] as int);
        }
        let amp: i64 = if zv < 0 {
            -zv
        } else {
            zv
        };
        if amp < self.config.z_score_threshold {
            return (false, Some(amp), None);
        }
        if self.config.check_sinusoidness {
            let ri = find_wave_minima(&self.ongoing_wave_raw);
            proof {
                lemma_argmin_first(self@.raws);
                assert(self@.raws[ri as int] == self.ongoing_wave_raw@[ri as int] as int);
            }
            let sinusoid = construct_adjusted_cosine_wave(
                self.config.wave_polarity == WavePolarity::Upwave,
                self.ongoing_wave_raw[ri],
                ri,
                self.ongoing_wave_raw.len(),
            );
            proof {
                assert forall|i: int| 0 <= i < self.ongoing_wave_raw@.len() implies -VALUE_LIMIT
                    <= #[trigger] self.ongoing_wave_raw@[i] <= VALUE_LIMIT by {
                    assert(self@.raws[i] == self.ongoing_wave_raw@[i] as int);
                }
            }
            let corr = pearson_exec(&self.ongoing_wave_raw, &sinusoid);
            if corr < self.config.sinusoidness_threshold {
                return (false, Some(amp), Some(corr));
            }
            return (true, Some(amp), Some(corr));
        }
        (true, Some(amp), None)
    }

    /// Reset all per-wave state.
    fn clear_wave_data(&mut self)
        ensures
            final(self)@ == (WavePeakModel {
                is_wave: old(self)@.is_wave,
                zs: Seq::empty(),
                raws: Seq::empty(),
                start: None,
                ..old(self)@
            }),
            final(self).spec_id() == old(self).spec_id(),
            final(self).spec_filter_id() == old(self).spec_filter_id(),
    {
        self.ongoing_wave_z_scores.clear();
        self.ongoing_wave_raw.clear();
        self.wave_start_index = None;
        proof {
            assert(ints(self.ongoing_wave_z_scores@) =~= Seq::<int>::empty());
            assert(ints(self.ongoing_wave_raw@) =~= Seq::<int>::empty());
        }
    }
}

} // verus!
