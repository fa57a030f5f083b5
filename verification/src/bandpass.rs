//! Two-stage band-pass filter.
//!
//! A `BandPassFilter` cascades one second-order high-pass section (corner at
//! the low cutoff) and one second-order low-pass section (corner at the high
//! cutoff), both designed with a fixed quality factor of `1/sqrt(2)`. The
//! cascade approximates a band-pass response; it is an intentional
//! simplification rather than a single band-pass biquad. All coefficients
//! and histories are fixed-point integers; every step of the recurrence is
//! pinned to a spec-level mirror.

use vstd::prelude::*;
use vstd::string::StringExecFns;

use crate::fixed::{clamp_i128, clamp_spec, div_trunc, tdiv, SCALE};
use crate::stats::VALUE_LIMIT;
use crate::trig::{cos_fp, cos_fp_spec, sin_fp, sin_fp_spec, TWO_PI_FP};

verus! {

/// Largest magnitude of a normalized filter coefficient (2.0 in fixed point).
pub const COEFF_LIMIT: i64 = 2_000_000;

/// `sqrt(2)` in fixed point: twice the quality factor `1/sqrt(2)`.
pub const TWO_Q_FP: i64 = 1_414_214;

/// Largest sample rate the design arithmetic accepts, in hertz.
pub const SAMPLE_RATE_LIMIT: u64 = 1_000_000_000;

/// Construction parameters of one band-pass filter. Cutoffs are in
/// milli-hertz so that sub-hertz corners (slow oscillations) stay exact.
pub struct BandPassFilterConfig {
    pub id: String,
    pub f_low_mhz: u64,
    pub f_high_mhz: u64,
}

/// Result-snapshot key owned by a filter.
pub struct Keys {
    pub filtered_sample: String,
}

impl Keys {
    /// Build the namespaced key `filters:<id>:filtered_sample`.
    pub fn new(id: &str) -> (r: Keys)
        ensures
            r.filtered_sample@ == "filters:"@ + id@ + ":filtered_sample"@,
    {
        let mut s: String = "filters:".to_owned();
        s.append(id);
        s.append(":filtered_sample");
        Keys { filtered_sample: s }
    }
}

/// Mathematical model of one second-order section: normalized coefficients
/// and the two-sample input/output history.
pub struct SectionModel {
    pub b0: int,
    pub b1: int,
    pub b2: int,
    pub a1: int,
    pub a2: int,
    pub x0: int,
    pub x1: int,
    pub y0: int,
    pub y1: int,
}

impl SectionModel {
    /// Coefficients and histories sit in their proven fixed-point ranges.
    pub open spec fn wf(self) -> bool {
        &&& -(COEFF_LIMIT as int) <= self.b0 <= COEFF_LIMIT as int
        &&& -(COEFF_LIMIT as int) <= self.b1 <= COEFF_LIMIT as int
        &&& -(COEFF_LIMIT as int) <= self.b2 <= COEFF_LIMIT as int
        &&& -(COEFF_LIMIT as int) <= self.a1 <= COEFF_LIMIT as int
        &&& -(COEFF_LIMIT as int) <= self.a2 <= COEFF_LIMIT as int
        &&& -(VALUE_LIMIT as int) <= self.x0 <= VALUE_LIMIT as int
        &&& -(VALUE_LIMIT as int) <= self.x1 <= VALUE_LIMIT as int
        &&& -(VALUE_LIMIT as int) <= self.y0 <= VALUE_LIMIT as int
        &&& -(VALUE_LIMIT as int) <= self.y1 <= VALUE_LIMIT as int
    }

    /// Both history pairs are zero (the state of a freshly built section).
    pub open spec fn at_rest(self) -> bool {
        self.x0 == 0 && self.x1 == 0 && self.y0 == 0 && self.y1 == 0
    }
}

/// Output of one section step: the fixed-point difference equation, with
/// the result saturated to the amplitude range the pipeline stores.
pub open spec fn section_out(s: SectionModel, input: int) -> int {
    let acc = s.b0 * input + s.b1 * s.x0 + s.b2 * s.x1 - s.a1 * s.y0 - s.a2 * s.y1;
    clamp_spec(tdiv(acc, SCALE as int), VALUE_LIMIT as int)
}

/// State of a section after one step: histories shifted by one sample.
pub open spec fn section_next(s: SectionModel, input: int) -> SectionModel {
    SectionModel { x0: input, x1: s.x0, y0: section_out(s, input), y1: s.y0, ..s }
}

/// Digital corner frequency in micro-radians per sample.
pub open spec fn spec_omega(f0_mhz: int, fs: int) -> int {
    (TWO_PI_FP as int * f0_mhz) / (1000 * fs)
}

/// The `alpha` quantity of the biquad design: `sin(omega) / sqrt(2)`,
/// with the sine clamped to be nonnegative.
pub open spec fn spec_alpha(omega: int) -> int {
    let sw = sin_fp_spec(omega);
    let swc = if sw < 0 {
        0
    } else {
        sw
    };
    (swc * SCALE as int) / TWO_Q_FP as int
}

/// Coefficients of a section designed for corner `f0_mhz` at rate `fs`:
/// the standard second-order high-pass or low-pass prototype, normalized by
/// its own `a0` in fixed point, with zeroed histories.
pub open spec fn design_section(f0_mhz: int, fs: int, high_pass: bool) -> SectionModel {
    let omega = spec_omega(f0_mhz, fs);
    let cw = cos_fp_spec(omega);
    let alpha = spec_alpha(omega);
    let a0 = SCALE as int + alpha;
    let raw_b0 = if high_pass {
        (SCALE as int + cw) / 2
    } else {
        (SCALE as int - cw) / 2
    };
    let raw_b1 = if high_pass {
        -(SCALE as int + cw)
    } else {
        SCALE as int - cw
    };
    SectionModel {
        b0: tdiv(raw_b0 * SCALE as int, a0),
        b1: tdiv(raw_b1 * SCALE as int, a0),
        b2: tdiv(raw_b0 * SCALE as int, a0),
        a1: tdiv(-2 * cw * SCALE as int, a0),
        a2: tdiv((SCALE as int - alpha) * SCALE as int, a0),
        x0: 0,
        x1: 0,
        y0: 0,
        y1: 0,
    }
}

/// One second-order recursive filter section.
pub struct SecondOrderFilter {
    b0: i64,
    b1: i64,
    b2: i64,
    a1: i64,
    a2: i64,
    x0: i64,
    x1: i64,
    y0: i64,
    y1: i64,
}

impl View for SecondOrderFilter {
    type V = SectionModel;

    closed spec fn view(&self) -> SectionModel {
        SectionModel {
            b0: self.b0 as int,
            b1: self.b1 as int,
            b2: self.b2 as int,
            a1: self.a1 as int,
            a2: self.a2 as int,
            x0: self.x0 as int,
            x1: self.x1 as int,
            y0: self.y0 as int,
            y1: self.y1 as int,
        }
    }
}

/// Normalizing a prototype coefficient by `a0 >= SCALE` cannot grow it.
proof fn lemma_norm_coeff(raw: int, a0: int)
    requires
        -(COEFF_LIMIT as int) <= raw <= COEFF_LIMIT as int,
        a0 >= SCALE as int,
    ensures
        -(COEFF_LIMIT as int) <= tdiv(raw * SCALE as int, a0) <= COEFF_LIMIT as int,
{
    if raw >= 0 {
        assert(raw * SCALE as int >= 0) by (nonlinear_arith)
            requires
                raw >= 0,
                SCALE as int > 0,
        {
        }
        vstd::arithmetic::div_mod::lemma_div_pos_is_pos(raw * SCALE as int, a0);
        vstd::arithmetic::div_mod::lemma_div_is_ordered_by_denominator(
            raw * SCALE as int,
            SCALE as int,
            a0,
        );
        vstd::arithmetic::div_mod::lemma_div_multiples_vanish(raw, SCALE as int);
        assert(raw * SCALE as int == SCALE as int * raw) by (nonlinear_arith);
    } else {
        let n = -raw;
        assert(-(raw * SCALE as int) == n * SCALE as int) by (nonlinear_arith)
            requires
                n == -raw,
        {
        }
        assert(n * SCALE as int >= 0) by (nonlinear_arith)
            requires
                n >= 0,
                SCALE as int > 0,
        {
        }
        vstd::arithmetic::div_mod::lemma_div_pos_is_pos(n * SCALE as int, a0);
        vstd::arithmetic::div_mod::lemma_div_is_ordered_by_denominator(
            n * SCALE as int,
            SCALE as int,
            a0,
        );
        vstd::arithmetic::div_mod::lemma_div_multiples_vanish(n, SCALE as int);
        assert(n * SCALE as int == SCALE as int * n) by (nonlinear_arith);
    }
}

impl SecondOrderFilter {
    /// Design a section for corner frequency `f0_mhz` (milli-hertz) at
    /// sample rate `fs` (hertz); high-pass when `high_pass`, else low-pass.
    pub fn new(f0_mhz: u64, fs: u64, high_pass: bool) -> (r: SecondOrderFilter)
        requires
            1 <= fs <= SAMPLE_RATE_LIMIT,
            f0_mhz <= 1000 * fs,
        ensures
            r@ == design_section(f0_mhz as int, fs as int, high_pass),
            r@.wf(),
            r@.at_rest(),
    {
        let omega: i64 = compute_omega(f0_mhz, fs);
        let cw: i64 = cos_fp(omega);
        let sw: i64 = sin_fp(omega);
        let swc: i64 = if sw < 0 {
            0
        } else {
            sw
        };
        let alpha: i64 = ((swc as u128 * 1_000_000u128) / 1_414_214u128) as i64;
        proof {
            vstd::arithmetic::div_mod::lemma_div_pos_is_pos(
                swc as int * SCALE as int,
                TWO_Q_FP as int,
            );
            assert(swc as int * SCALE as int <= 1_000_000_000_000) by (nonlinear_arith)
                requires
                    0 <= swc <= 1_000_000,
                    SCALE == 1_000_000,
            {
            }
            vstd::arithmetic::div_mod::lemma_div_is_ordered(
                swc as int * SCALE as int,
                1_000_000_000_000,
                TWO_Q_FP as int,
            );
        }
        let a0: i64 = 1_000_000 + alpha;
        let raw_b0: i64 = if high_pass {
            (((1_000_000 + cw) as u64) / 2) as i64
        } else {
            (((1_000_000 - cw) as u64) / 2) as i64
        };
        let raw_b1: i64 = if high_pass {
            -(1_000_000 + cw)
        } else {
            1_000_000 - cw
        };
        let raw_a1: i64 = -2 * cw;
        let raw_a2: i64 = 1_000_000 - alpha;
        proof {
            lemma_norm_coeff(raw_b0 as int, a0 as int);
            lemma_norm_coeff(raw_b1 as int, a0 as int);
            lemma_norm_coeff(raw_a1 as int, a0 as int);
            lemma_norm_coeff(raw_a2 as int, a0 as int);
        }
        let nb0: i64 = div_trunc(raw_b0 as i128 * SCALE as i128, a0 as i128) as i64;
        let nb1: i64 = div_trunc(raw_b1 as i128 * SCALE as i128, a0 as i128) as i64;
        let na1: i64 = div_trunc(raw_a1 as i128 * SCALE as i128, a0 as i128) as i64;
        let na2: i64 = div_trunc(raw_a2 as i128 * SCALE as i128, a0 as i128) as i64;
        SecondOrderFilter {
            b0: nb0,
            b1: nb1,
            b2: nb0,
            a1: na1,
            a2: na2,
            x0: 0,
            x1: 0,
            y0: 0,
            y1: 0,
        }
    }

    /// Feed one input through the difference equation, shifting the
    /// two-sample history and saturating the output to the stored range.
    pub fn calculate_output(&mut self, input: i64) -> (r: i64)
        requires
            old(self)@.wf(),
            -VALUE_LIMIT <= input <= VALUE_LIMIT,
        ensures
            final(self)@.wf(),
            r == section_out(old(self)@, input as int),
            final(self)@ == section_next(old(self)@, input as int),
            -VALUE_LIMIT <= r <= VALUE_LIMIT,
    {
        proof {
            lemma_prod_bound(self@.b0, input as int);
            lemma_prod_bound(self@.b1, self@.x0);
            lemma_prod_bound(self@.b2, self@.x1);
            lemma_prod_bound(self@.a1, self@.y0);
            lemma_prod_bound(self@.a2, self@.y1);
        }
        let acc: i128 = self.b0 as i128 * input as i128 + self.b1 as i128 * self.x0 as i128
            + self.b2 as i128 * self.x1 as i128 - self.a1 as i128 * self.y0 as i128
            - self.a2 as i128 * self.y1 as i128;
        let raw: i128 = div_trunc(acc, SCALE as i128);
        proof {
            crate::fixed::lemma_tdiv_magnitude(acc as int, SCALE as int);
        }
        let out: i64 = clamp_i128(raw, VALUE_LIMIT as i128) as i64;
        self.x1 = self.x0;
        self.x0 = input;
        self.y1 = self.y0;
        self.y0 = out;
        out
    }
}

/// A product of a coefficient and a stored amplitude is bounded by
/// `COEFF_LIMIT * VALUE_LIMIT`.
proof fn lemma_prod_bound(c: int, v: int)
    requires
        -(COEFF_LIMIT as int) <= c <= COEFF_LIMIT as int,
        -(VALUE_LIMIT as int) <= v <= VALUE_LIMIT as int,
    ensures
        -2_000_000_000_000_000_000 <= c * v <= 2_000_000_000_000_000_000,
{
    assert(-2_000_000_000_000_000_000 <= c * v <= 2_000_000_000_000_000_000) by (nonlinear_arith)
        requires
            -2_000_000 <= c <= 2_000_000,
            -1_000_000_000_000 <= v <= 1_000_000_000_000,
    {
    }
}

/// Digital corner frequency of `f0_mhz` at sample rate `fs`, in
/// micro-radians per sample; never exceeds a full turn.
fn compute_omega(f0_mhz: u64, fs: u64) -> (r: i64)
    requires
        1 <= fs <= SAMPLE_RATE_LIMIT,
        f0_mhz <= 1000 * fs,
    ensures
        r == spec_omega(f0_mhz as int, fs as int),
        0 <= r <= TWO_PI_FP,
{
    let den: u128 = 1000u128 * fs as u128;
    proof {
        assert(TWO_PI_FP as int * f0_mhz as int <= 6_283_185_000_000_000_000int)
            by (nonlinear_arith)
            requires
                0 <= f0_mhz as int <= 1_000_000_000_000,
                TWO_PI_FP == 6_283_185,
        {
        }
    }
    let num: u128 = TWO_PI_FP as u128 * f0_mhz as u128;
    proof {
        assert(TWO_PI_FP as int * f0_mhz as int <= TWO_PI_FP as int * (1000 * fs as int))
            by (nonlinear_arith)
            requires
                0 <= f0_mhz as int <= 1000 * fs as int,
                TWO_PI_FP as int > 0,
        {
        }
        vstd::arithmetic::div_mod::lemma_div_pos_is_pos(
            TWO_PI_FP as int * f0_mhz as int,
            1000 * fs as int,
        );
        vstd::arithmetic::div_mod::lemma_div_is_ordered(
            TWO_PI_FP as int * f0_mhz as int,
            TWO_PI_FP as int * (1000 * fs as int),
            1000 * fs as int,
        );
        vstd::arithmetic::div_mod::lemma_div_multiples_vanish(
            TWO_PI_FP as int,
            1000 * fs as int,
        );
        assert(TWO_PI_FP as int * (1000 * fs as int) == (1000 * fs as int) * TWO_PI_FP as int)
            by (nonlinear_arith);
    }
    (num / den) as i64
}

/// Stateful two-stage band-pass filter: high-pass then low-pass.
pub struct BandPassFilter {
    config: BandPassFilterConfig,
    high_pass: SecondOrderFilter,
    low_pass: SecondOrderFilter,
    keys: Keys,
}

/// Mathematical model of a band-pass filter: its two section models.
pub struct BandPassModel {
    pub hp: SectionModel,
    pub lp: SectionModel,
}

impl BandPassModel {
    pub open spec fn wf(self) -> bool {
        self.hp.wf() && self.lp.wf()
    }

    pub open spec fn at_rest(self) -> bool {
        self.hp.at_rest() && self.lp.at_rest()
    }
}

/// Output of one band-pass step: the cascade of the two sections.
pub open spec fn bandpass_out(m: BandPassModel, raw: int) -> int {
    section_out(m.lp, section_out(m.hp, raw))
}

/// State of a band-pass filter after one step.
pub open spec fn bandpass_next(m: BandPassModel, raw: int) -> BandPassModel {
    BandPassModel {
        hp: section_next(m.hp, raw),
        lp: section_next(m.lp, section_out(m.hp, raw)),
    }
}

impl View for BandPassFilter {
    type V = BandPassModel;

    closed spec fn view(&self) -> BandPassModel {
        BandPassModel { hp: self.high_pass@, lp: self.low_pass@ }
    }
}

impl BandPassFilter {
    /// Identifier under which the processor registers this filter.
    pub fn id(&self) -> (r: &String)
        ensures
            r@ == self.spec_id(),
    {
        &self.config.id
    }

    /// The filter's identifier (spec-level).
    pub closed spec fn spec_id(&self) -> Seq<char> {
        self.config.id@
    }

    /// The snapshot key this filter writes.
    pub fn key(&self) -> (r: &String)
        ensures
            r@ == self.spec_key(),
    {
        &self.keys.filtered_sample
    }

    /// The snapshot key (spec-level): `filters:<id>:filtered_sample`.
    pub closed spec fn spec_key(&self) -> Seq<char> {
        self.keys.filtered_sample@
    }

    /// The result-snapshot keys this filter owns.
    pub fn keys(&self) -> &Keys {
        &self.keys
    }

    /// Build both sections from the configured cutoffs: high-pass corner at
    /// the low cutoff, low-pass corner at the high cutoff.
    pub fn new(config: BandPassFilterConfig, fs: u64) -> (r: BandPassFilter)
        requires
            1 <= fs <= SAMPLE_RATE_LIMIT,
            config.f_low_mhz <= 1000 * fs,
            config.f_high_mhz <= 1000 * fs,
        ensures
            r@.hp == design_section(config.f_low_mhz as int, fs as int, true),
            r@.lp == design_section(config.f_high_mhz as int, fs as int, false),
            r@.wf(),
            r@.at_rest(),
            r.spec_id() == config.id@,
            r.spec_key() == "filters:"@ + config.id@ + ":filtered_sample"@,
    {
        let high_pass = SecondOrderFilter::new(config.f_low_mhz, fs, true);
        let low_pass = SecondOrderFilter::new(config.f_high_mhz, fs, false);
        let keys = Keys::new(config.id.as_str());
        BandPassFilter { config, high_pass, low_pass, keys }
    }

    /// Feed one raw sample through both sections and return the band-passed
    /// sample.
    pub fn process_sample(&mut self, raw: i64) -> (r: i64)
        requires
            old(self)@.wf(),
            -VALUE_LIMIT <= raw <= VALUE_LIMIT,
        ensures
            final(self)@.wf(),
            r == bandpass_out(old(self)@, raw as int),
            final(self)@ == bandpass_next(old(self)@, raw as int),
            -VALUE_LIMIT <= r <= VALUE_LIMIT,
            final(self).spec_id() == old(self).spec_id(),
            final(self).spec_key() == old(self).spec_key(),
    {
        let mid = self.high_pass.calculate_output(raw);
        self.low_pass.calculate_output(mid)
    }
}

/// A section at rest maps a zero input to a zero output and stays at rest:
/// the filter adds no spontaneous energy, whatever its coefficients.
pub proof fn lemma_section_zero_step(s: SectionModel)
    requires
        s.at_rest(),
    ensures
        section_out(s, 0) == 0,
        section_next(s, 0).at_rest(),
{
    assert(s.b0 * 0 == 0) by (nonlinear_arith);
    assert(s.b1 * 0 == 0) by (nonlinear_arith);
    assert(s.b2 * 0 == 0) by (nonlinear_arith);
    assert(s.a1 * 0 == 0) by (nonlinear_arith);
    assert(s.a2 * 0 == 0) by (nonlinear_arith);
    assert(tdiv(0, SCALE as int) == 0) by {
        vstd::arithmetic::div_mod::lemma_div_basics(SCALE as int);
    }
}

/// A band-pass filter at rest maps a zero input to a zero output and stays
/// at rest.
pub proof fn lemma_bandpass_zero_step(m: BandPassModel)
    requires
        m.at_rest(),
    ensures
        bandpass_out(m, 0) == 0,
        bandpass_next(m, 0).at_rest(),
{
    lemma_section_zero_step(m.hp);
    lemma_section_zero_step(m.lp);
}

} // verus!
