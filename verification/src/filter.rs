//! One-pole recursive filters.
//!
//! The low-pass filter keeps one previous output and moves it toward each
//! input by a fixed fraction `alpha`; the high-pass filter differentiates
//! the input and leaks the running sum by a fixed fraction `beta`. Both
//! coefficients are computed once, at construction, from a cutoff frequency
//! and the sample rate by the standard RC mapping
//! `alpha = dt / (RC + dt)`, `beta = RC / (RC + dt)` with
//! `RC = 1 / (2 * pi * freq)`, carried out in integer arithmetic with
//! `2 * pi` taken as `6283185 / 1000000`.

use vstd::prelude::*;
use crate::fixed::{sat, fx_mul, in_rails, ONE, lemma_fx_mul_frac, lemma_fx_mul_zero,
    lemma_sat_id};

verus! {

/// Numerator of the fixed rational standing for `2 * pi`.
pub const TWO_PI_NUM: u64 = 6283185;

/// Denominator of the fixed rational standing for `2 * pi`.
pub const TWO_PI_DEN: u64 = 1000000;

/// The low-pass smoothing coefficient for a cutoff `freq` at `sample_rate`:
/// `dt / (RC + dt) == 2*pi*freq / (sample_rate + 2*pi*freq)` in Q16.
pub open spec fn lp_alpha(freq: int, sample_rate: int) -> int {
    ONE as int * (TWO_PI_NUM as int * freq) / (
        TWO_PI_DEN as int * sample_rate + TWO_PI_NUM as int * freq)
}

/// The high-pass retention coefficient for a cutoff `freq` at `sample_rate`:
/// `RC / (RC + dt) == sample_rate / (sample_rate + 2*pi*freq)` in Q16.
pub open spec fn hp_beta(freq: int, sample_rate: int) -> int {
    ONE as int * (TWO_PI_DEN as int * sample_rate) / (
        TWO_PI_DEN as int * sample_rate + TWO_PI_NUM as int * freq)
}

/// The mathematical state of a low-pass filter.
pub ghost struct LpV {
    pub prev_output: int,
    pub alpha: int,
}

impl LpV {
    pub open spec fn wf(self) -> bool {
        &&& 0 <= self.alpha <= ONE as int
        &&& in_rails(self.prev_output)
    }
}

/// One low-pass step: the retained output moves toward the input by the
/// fraction `alpha`.
pub open spec fn lp_step(f: LpV, x: int) -> LpV {
    LpV {
        prev_output: sat(f.prev_output + fx_mul(sat(x - f.prev_output), f.alpha)),
        alpha: f.alpha,
    }
}

/// The mathematical state of a high-pass filter.
pub ghost struct HpV {
    pub prev_sample: int,
    pub prev_output: int,
    pub beta: int,
}

impl HpV {
    pub open spec fn wf(self) -> bool {
        &&& 0 <= self.beta <= ONE as int
        &&& in_rails(self.prev_sample)
        &&& in_rails(self.prev_output)
    }
}

/// One high-pass step: the output accumulates the input's difference and
/// leaks by the fraction `beta`.
pub open spec fn hp_step(f: HpV, x: int) -> HpV {
    HpV {
        prev_sample: x,
        prev_output: fx_mul(sat(f.prev_output + sat(x - f.prev_sample)), f.beta),
        beta: f.beta,
    }
}

pub struct LpFilter {
    /// The retained previous output.
    pub prev_output: i64,
    /// Smoothing coefficient in Q16, between 0 and `ONE`.
    pub alpha: i64,
}

impl LpFilter {
    pub open spec fn v(self) -> LpV {
        LpV { prev_output: self.prev_output as int, alpha: self.alpha as int }
    }

    pub open spec fn wf(self) -> bool {
        self.v().wf()
    }

    /// Construct a low-pass filter for a cutoff frequency in hertz.
    pub fn new(freq: u32, sample_rate: u32) -> (r: LpFilter)
        requires
            1 <= freq,
            1 <= sample_rate,
        ensures
            r.v() == (LpV { prev_output: 0, alpha: lp_alpha(freq as int, sample_rate as int) }),
            r.wf(),
    {
        LpFilter { prev_output: 0, alpha: coeff(TWO_PI_NUM * (freq as u64), freq, sample_rate) }
    }

    /// Construct a low-pass filter directly from its Q16 coefficient.
    pub fn with_alpha(alpha: i64) -> (r: LpFilter)
        requires
            0 <= alpha <= ONE,
        ensures
            r.v() == (LpV { prev_output: 0, alpha: alpha as int }),
            r.wf(),
    {
        LpFilter { prev_output: 0, alpha }
    }

    /// Filter one sample; returns the new retained output.
    pub fn add_sample(&mut self, sample: i64) -> (r: i64)
        requires
            old(self).wf(),
            in_rails(sample as int),
        ensures
            final(self).v() == lp_step(old(self).v(), sample as int),
            r == final(self).v().prev_output,
            final(self).wf(),
    {
        let d = crate::fixed::qsub(sample, self.prev_output);
        let step = crate::fixed::qmul(d, self.alpha);
        self.prev_output = crate::fixed::qadd(self.prev_output, step);
        self.prev_output
    }
}

pub struct HpFilter {
    /// The previous input sample.
    pub prev_sample: i64,
    /// The retained previous output.
    pub prev_output: i64,
    /// Retention coefficient in Q16, between 0 and `ONE`.
    pub beta: i64,
}

impl HpFilter {
    pub open spec fn v(self) -> HpV {
        HpV {
            prev_sample: self.prev_sample as int,
            prev_output: self.prev_output as int,
            beta: self.beta as int,
        }
    }

    pub open spec fn wf(self) -> bool {
        self.v().wf()
    }

    /// Construct a high-pass filter for a cutoff frequency in hertz.
    pub fn new(freq: u32, sample_rate: u32) -> (r: HpFilter)
        requires
            1 <= freq,
            1 <= sample_rate,
        ensures
            r.v() == (HpV {
                prev_sample: 0,
                prev_output: 0,
                beta: hp_beta(freq as int, sample_rate as int),
            }),
            r.wf(),
    {
        HpFilter {
            prev_sample: 0,
            prev_output: 0,
            beta: coeff(TWO_PI_DEN * (sample_rate as u64), freq, sample_rate),
        }
    }

    /// Construct a high-pass filter directly from its Q16 coefficient.
    pub fn with_beta(beta: i64) -> (r: HpFilter)
        requires
            0 <= beta <= ONE,
        ensures
            r.v() == (HpV { prev_sample: 0, prev_output: 0, beta: beta as int }),
            r.wf(),
    {
        HpFilter { prev_sample: 0, prev_output: 0, beta }
    }

    /// Filter one sample; returns the new retained output.
    pub fn add_sample(&mut self, sample: i64) -> (r: i64)
        requires
            old(self).wf(),
            in_rails(sample as int),
        ensures
            final(self).v() == hp_step(old(self).v(), sample as int),
            r == final(self).v().prev_output,
            final(self).wf(),
    {
        let ds = crate::fixed::qsub(sample, self.prev_sample);
        self.prev_sample = sample;
        let acc = crate::fixed::qadd(self.prev_output, ds);
        self.prev_output = crate::fixed::qmul(acc, self.beta);
        proof {
            lemma_fx_mul_frac(acc as int, self.beta as int);
        }
        self.prev_output
    }
}

/// Shared coefficient computation: `ONE * num / (TWO_PI_DEN * sample_rate +
/// TWO_PI_NUM * freq)`, exact in integers, always between 0 and `ONE`.
fn coeff(num: u64, freq: u32, sample_rate: u32) -> (r: i64)
    requires
        1 <= freq,
        1 <= sample_rate,
        num == TWO_PI_NUM * (freq as u64) || num == TWO_PI_DEN * (sample_rate as u64),
    ensures
        r as int == ONE as int * num as int / (
            TWO_PI_DEN as int * sample_rate as int + TWO_PI_NUM as int * freq as int),
        0 <= r <= ONE,
{
    let den: u128 = (TWO_PI_DEN as u128) * (sample_rate as u128)
        + (TWO_PI_NUM as u128) * (freq as u128);
    let q: u128 = (ONE as u128) * (num as u128) / den;
    proof {
        let n = ONE as int * num as int;
        assert(n <= den as int * ONE as int) by (nonlinear_arith)
            requires
                n == ONE as int * num as int,
                num as int <= den as int,
        ;
        vstd::arithmetic::div_mod::lemma_div_multiples_vanish(ONE as int, den as int);
        vstd::arithmetic::div_mod::lemma_div_is_ordered(n, den as int * ONE as int, den as int);
        vstd::arithmetic::div_mod::lemma_div_pos_is_pos(n, den as int);
    }
    q as i64
}

/// Silence is a fixed point of the low-pass filter: from a zero retained
/// output, a zero input leaves the state at zero.
pub proof fn lemma_lp_silence(f: LpV)
    requires
        f.wf(),
        f.prev_output == 0,
    ensures
        lp_step(f, 0) == f,
{
    lemma_fx_mul_zero(0, f.alpha);
}

/// Silence is a fixed point of the high-pass filter: from a zero state, a
/// zero input leaves the state at zero.
pub proof fn lemma_hp_silence(f: HpV)
    requires
        f.wf(),
        f.prev_sample == 0,
        f.prev_output == 0,
    ensures
        hp_step(f, 0) == f,
{
    lemma_fx_mul_zero(0, f.beta);
}

/// Low-pass monotone convergence: for a constant input `x`, the retained
/// output moves toward `x` and never overshoots it, from either side.
pub proof fn lemma_lp_monotone(f: LpV, x: int)
    requires
        f.wf(),
        in_rails(x),
    ensures
        f.prev_output <= x ==> f.prev_output <= lp_step(f, x).prev_output <= x,
        x <= f.prev_output ==> x <= lp_step(f, x).prev_output <= f.prev_output,
{
    let d = sat(x - f.prev_output);
    lemma_fx_mul_frac(d, f.alpha);
    lemma_sat_id(f.prev_output + fx_mul(d, f.alpha));
}

/// Low-pass strict progress: with a nonzero coefficient, the retained
/// output strictly approaches a constant input while it is more than one
/// coefficient-quantum away — together with the monotone bound above, the
/// output converges into that quantum of the input and stays there.
pub proof fn lemma_lp_progress(f: LpV, x: int)
    requires
        f.wf(),
        in_rails(x),
        1 <= f.alpha,
    ensures
        f.prev_output + ONE <= x ==> f.prev_output < lp_step(f, x).prev_output <= x,
        x + ONE <= f.prev_output ==> x <= lp_step(f, x).prev_output < f.prev_output,
{
    lemma_lp_monotone(f, x);
    let d = sat(x - f.prev_output);
    lemma_fx_mul_frac(d, f.alpha);
    if f.prev_output + ONE <= x {
        assert(d >= ONE);
        assert(d * f.alpha >= ONE as int * 1) by (nonlinear_arith)
            requires
                d >= ONE as int,
                f.alpha >= 1,
        ;
        vstd::arithmetic::div_mod::lemma_div_is_ordered(ONE as int, d * f.alpha, ONE as int);
        lemma_sat_id(f.prev_output + fx_mul(d, f.alpha));
    }
    if x + ONE <= f.prev_output {
        assert(d <= -ONE);
        assert(d * f.alpha <= -(ONE as int) * 1) by (nonlinear_arith)
            requires
                d <= -(ONE as int),
                f.alpha >= 1,
        ;
        vstd::arithmetic::div_mod::lemma_div_is_ordered(ONE as int, -(d * f.alpha), ONE as int);
        lemma_sat_id(f.prev_output + fx_mul(d, f.alpha));
    }
}

/// High-pass decay: once the input holds still (the new sample equals the
/// retained previous sample), the output's magnitude never grows, so it
/// decays toward zero.
pub proof fn lemma_hp_decay(f: HpV)
    requires
        f.wf(),
    ensures
        f.prev_output >= 0 ==> 0 <= hp_step(f, f.prev_sample).prev_output <= f.prev_output,
        f.prev_output <= 0 ==> f.prev_output <= hp_step(f, f.prev_sample).prev_output <= 0,
{
    lemma_sat_id(f.prev_sample - f.prev_sample);
    lemma_sat_id(f.prev_output + 0);
    lemma_fx_mul_frac(f.prev_output, f.beta);
}

} // verus!
