//! The 2x-oversampled state-variable filter.
//!
//! One set of recurrence equations yields simultaneous low, high, band and
//! notch outputs (peak is derived). The recurrence runs twice per call,
//! each pass contributing half of each output, which keeps the filter
//! stable at high cutoff and resonance. The internal frequency coefficient
//! is `2 * sin(pi * min(fc / (2 * sample_rate), 1/4))`, with the sine taken
//! by a fifth-order polynomial (the bounded angle never exceeds a quarter
//! turn); the damping ties resonance growth to a stability ceiling that
//! tightens as the frequency coefficient grows. Out-of-range cutoff and
//! resonance are silently clamped, never rejected.

use vstd::prelude::*;
use crate::fixed::{tdiv, sat, fx_mul, in_rails, sqrt_floor, ONE, lemma_scale_frac,
    lemma_tdiv_range, lemma_sat_id};

verus! {

/// The mathematical state of a state-variable filter.
pub ghost struct SvfV {
    pub sr: int,
    pub fc: int,
    pub res: int,
    pub drive: int,
    pub freq: int,
    pub damp: int,
    pub notch: int,
    pub low: int,
    pub high: int,
    pub band: int,
    pub peak: int,
    pub input: int,
    pub outnotch: int,
    pub outlow: int,
    pub outhigh: int,
    pub outpeak: int,
    pub outband: int,
}

impl SvfV {
    pub open spec fn wf(self) -> bool {
        &&& 4 <= self.sr <= 1000000
        &&& 1 <= self.fc <= self.sr * ONE as int
        &&& 0 <= self.res <= ONE as int
        &&& 0 <= self.drive <= ONE as int
        &&& 0 <= self.freq <= 4 * ONE as int
        &&& -2 * ONE as int <= self.damp <= 2 * ONE as int
        &&& in_rails(self.notch)
        &&& in_rails(self.low)
        &&& in_rails(self.high)
        &&& in_rails(self.band)
        &&& in_rails(self.peak)
        &&& in_rails(self.input)
        &&& in_rails(self.outnotch)
        &&& in_rails(self.outlow)
        &&& in_rails(self.outhigh)
        &&& in_rails(self.outpeak)
        &&& in_rails(self.outband)
    }
}

/// The angle `pi * q` in Q16, with `pi` taken as `355 / 113`.
pub open spec fn pi_angle(q: int) -> int {
    tdiv(q * 355, 113)
}

/// Fifth-order sine polynomial `a - a^3/6 + a^5/120` in Q16, for angles in
/// `[0, 1]` (radians).
pub open spec fn sin_poly(a: int) -> int {
    let x2 = fx_mul(a, a);
    let x3 = fx_mul(x2, a);
    let x5 = fx_mul(x3, x2);
    a - tdiv(x3, 6) + tdiv(x5, 120)
}

/// The cutoff clamp: into `[1, sample_rate/2)` in Q16 hertz, matching the
/// silent-clamp behaviour of reconfiguration.
pub open spec fn fc_clamp(sr: int, freq: int) -> int {
    let half = tdiv(sr * ONE as int, 2);
    if freq < 1 {
        1
    } else if freq > half {
        half - ONE as int
    } else {
        freq
    }
}

/// The internal frequency coefficient for a clamped cutoff.
pub open spec fn svf_freq(fc: int, sr: int) -> int {
    let q = tdiv(fc, 2 * sr);
    let qm = if q > 0x4000 {
        0x4000int
    } else {
        q
    };
    2 * sin_poly(pi_angle(qm))
}

/// The resonance clamp: into `[0, 1]` in Q16.
pub open spec fn res_clamp(r: int) -> int {
    if r < 0 {
        0
    } else if r > ONE as int {
        ONE as int
    } else {
        r
    }
}

/// The damping coefficient:
/// `min(2 * (1 - res^(1/4)), min(2, 2/freq - freq/2))`, the fourth root
/// taken by two integer square roots.
pub open spec fn damp_of(res: int, freq: int) -> int {
    let r4 = sqrt_floor(sqrt_floor(res * ONE as int) * ONE as int);
    let t = 2 * (ONE as int - r4);
    let c = if freq >= 1 {
        sat(sat(tdiv(2 * ONE as int * ONE as int, freq)) - tdiv(freq, 2))
    } else {
        2 * ONE as int
    };
    let m = if (2 * ONE as int) < c {
        2 * ONE as int
    } else {
        c
    };
    if t < m {
        t
    } else {
        m
    }
}

/// One pass of the core recurrence.
pub open spec fn svf_pass(d: SvfV) -> SvfV {
    let notch = sat(d.input - fx_mul(d.band, d.damp));
    let low = sat(d.low + fx_mul(d.band, d.freq));
    let high = sat(notch - low);
    let cubic = fx_mul(fx_mul(fx_mul(d.drive, d.band), d.band), d.band);
    let band = sat(sat(fx_mul(high, d.freq) + d.band) - cubic);
    SvfV { notch, low, high, band, ..d }
}

/// Set the five output accumulators to half of the current pass.
pub open spec fn svf_outs_set(d: SvfV) -> SvfV {
    SvfV {
        outlow: fx_mul(d.low, 0x8000),
        outhigh: fx_mul(d.high, 0x8000),
        outband: fx_mul(d.band, 0x8000),
        outpeak: fx_mul(sat(d.low - d.high), 0x8000),
        outnotch: fx_mul(d.notch, 0x8000),
        ..d
    }
}

/// Add half of the current pass into the output accumulators.
pub open spec fn svf_outs_add(d: SvfV) -> SvfV {
    SvfV {
        outlow: sat(d.outlow + fx_mul(d.low, 0x8000)),
        outhigh: sat(d.outhigh + fx_mul(d.high, 0x8000)),
        outband: sat(d.outband + fx_mul(d.band, 0x8000)),
        outpeak: sat(d.outpeak + fx_mul(sat(d.low - d.high), 0x8000)),
        outnotch: sat(d.outnotch + fx_mul(d.notch, 0x8000)),
        ..d
    }
}

/// One whole call: two oversampled passes, each contributing half of every
/// output.
pub open spec fn svf_step(d: SvfV, input: int) -> SvfV {
    svf_outs_add(svf_pass(svf_outs_set(svf_pass(SvfV { input, ..d }))))
}

pub struct Svf {
    /// Sample rate, hertz.
    pub sr: i64,
    /// Clamped cutoff, Q16 hertz.
    pub fc: i64,
    /// Clamped resonance, Q16 in `[0, 1]`.
    pub res: i64,
    /// Cubic band-feedback coefficient, Q16; zero unless configured.
    pub drive: i64,
    /// Internal frequency coefficient, Q16.
    pub freq: i64,
    /// Damping coefficient, Q16.
    pub damp: i64,
    pub notch: i64,
    pub low: i64,
    pub high: i64,
    pub band: i64,
    pub peak: i64,
    pub input: i64,
    pub outnotch: i64,
    pub outlow: i64,
    pub outhigh: i64,
    pub outpeak: i64,
    pub outband: i64,
}

impl Svf {
    pub open spec fn v(self) -> SvfV {
        SvfV {
            sr: self.sr as int,
            fc: self.fc as int,
            res: self.res as int,
            drive: self.drive as int,
            freq: self.freq as int,
            damp: self.damp as int,
            notch: self.notch as int,
            low: self.low as int,
            high: self.high as int,
            band: self.band as int,
            peak: self.peak as int,
            input: self.input as int,
            outnotch: self.outnotch as int,
            outlow: self.outlow as int,
            outhigh: self.outhigh as int,
            outpeak: self.outpeak as int,
            outband: self.outband as int,
        }
    }

    pub open spec fn wf(self) -> bool {
        self.v().wf()
    }

    /// Construct a filter at silence, configured for a cutoff (Q16 hertz)
    /// and resonance (Q16).
    pub fn new(samplerate: i64, freq: i64, res: i64) -> (r: Svf)
        requires
            4 <= samplerate <= 1000000,
        ensures
            r.wf(),
            r.v() == (SvfV {
                sr: samplerate as int,
                fc: fc_clamp(samplerate as int, freq as int),
                res: res_clamp(res as int),
                drive: 0,
                freq: svf_freq(fc_clamp(samplerate as int, freq as int), samplerate as int),
                damp: damp_of(
                    res_clamp(res as int),
                    svf_freq(fc_clamp(samplerate as int, freq as int), samplerate as int),
                ),
                notch: 0,
                low: 0,
                high: 0,
                band: 0,
                peak: 0,
                input: 0,
                outnotch: 0,
                outlow: 0,
                outhigh: 0,
                outpeak: 0,
                outband: 0,
            }),
    {
        let mut s = Svf {
            sr: samplerate,
            fc: 1,
            res: 0,
            drive: 0,
            freq: 0,
            damp: 0,
            notch: 0,
            low: 0,
            high: 0,
            band: 0,
            peak: 0,
            input: 0,
            outnotch: 0,
            outlow: 0,
            outhigh: 0,
            outpeak: 0,
            outband: 0,
        };
        s.set_freq(freq);
        s.set_res(res);
        s
    }

    /// Reconfigure the cutoff (Q16 hertz); out-of-range values are clamped,
    /// and the frequency and damping coefficients are recomputed.
    pub fn set_freq(&mut self, freq: i64)
        requires
            old(self).wf(),
        ensures
            final(self).wf(),
            final(self).v() == (SvfV {
                fc: fc_clamp(old(self).v().sr, freq as int),
                freq: svf_freq(fc_clamp(old(self).v().sr, freq as int), old(self).v().sr),
                damp: damp_of(
                    old(self).v().res,
                    svf_freq(fc_clamp(old(self).v().sr, freq as int), old(self).v().sr),
                ),
                ..old(self).v()
            }),
    {
        let half: i64 = self.sr * ONE / 2;
        if freq < 1 {
            self.fc = 1;
        } else if freq > half {
            self.fc = half - ONE;
        } else {
            self.fc = freq;
        }
        let q: i64 = self.fc / (2 * self.sr);
        let qm: i64 = if q > 0x4000 {
            0x4000
        } else {
            q
        };
        proof {
            lemma_tdiv_range(self.fc as int, 2 * self.sr as int);
        }
        let a: i64 = qm * 355 / 113;
        proof {
            vstd::arithmetic::div_mod::lemma_div_is_ordered(qm as int * 355, 0x4000int * 355, 113);
            vstd::arithmetic::div_mod::lemma_div_pos_is_pos(qm as int * 355, 113);
            lemma_sin_poly_range(a as int);
        }
        self.freq = 2 * sine_poly(a);
        self.set_damp();
    }

    /// Reconfigure the resonance (Q16); out-of-range values are clamped,
    /// and the damping coefficient is recomputed.
    pub fn set_res(&mut self, r: i64)
        requires
            old(self).wf(),
        ensures
            final(self).wf(),
            final(self).v() == (SvfV {
                res: res_clamp(r as int),
                damp: damp_of(res_clamp(r as int), old(self).v().freq),
                ..old(self).v()
            }),
    {
        if r < 0 {
            self.res = 0;
        } else if r > ONE {
            self.res = ONE;
        } else {
            self.res = r;
        }
        self.set_damp();
    }

    /// Recompute the damping coefficient from the current resonance and
    /// frequency coefficient.
    fn set_damp(&mut self)
        requires
            0 <= old(self).res <= ONE,
            0 <= old(self).freq <= 4 * ONE,
        ensures
            final(self).v() == (SvfV {
                damp: damp_of(old(self).v().res, old(self).v().freq),
                ..old(self).v()
            }),
            -2 * ONE as int <= final(self).damp as int <= 2 * ONE as int,
    {
        let s1 = crate::fixed::isqrt64((self.res as u64) * (ONE as u64));
        proof {
            lemma_isqrt_small(self.res as int * ONE as int, s1 as int);
        }
        let s2 = crate::fixed::isqrt64(s1 * (ONE as u64));
        proof {
            lemma_isqrt_small(s1 as int * ONE as int, s2 as int);
        }
        let t: i64 = 2 * (ONE - s2 as i64);
        let c: i64 = if self.freq >= 1 {
            let inv = crate::fixed::qdiv(2 * ONE, self.freq);
            proof {
                lemma_tdiv_range(2 * ONE as int * ONE as int, self.freq as int);
                lemma_tdiv_range(self.freq as int, 2);
            }
            crate::fixed::qsub(inv, self.freq / 2)
        } else {
            2 * ONE
        };
        let m: i64 = if 2 * ONE < c {
            2 * ONE
        } else {
            c
        };
        self.damp = if t < m {
            t
        } else {
            m
        };
        proof {
            if self.freq as int >= 1 {
                lemma_sat_id(
                    sat(tdiv(2 * ONE as int * ONE as int, self.freq as int)) - tdiv(
                        self.freq as int,
                        2,
                    ),
                );
            }
        }
    }

    /// Process one input sample: run the recurrence twice, accumulating
    /// half of every band output per pass.
    pub fn process(&mut self, input: i64)
        requires
            old(self).wf(),
            in_rails(input as int),
        ensures
            final(self).wf(),
            final(self).v() == svf_step(old(self).v(), input as int),
    {
        self.input = input;
        self.run_pass();
        self.outlow = crate::fixed::qmul(self.low, 0x8000);
        self.outhigh = crate::fixed::qmul(self.high, 0x8000);
        self.outband = crate::fixed::qmul(self.band, 0x8000);
        self.outpeak = crate::fixed::qmul(crate::fixed::qsub(self.low, self.high), 0x8000);
        self.outnotch = crate::fixed::qmul(self.notch, 0x8000);
        self.run_pass();
        self.outlow = crate::fixed::qadd(self.outlow, crate::fixed::qmul(self.low, 0x8000));
        self.outhigh = crate::fixed::qadd(self.outhigh, crate::fixed::qmul(self.high, 0x8000));
        self.outband = crate::fixed::qadd(self.outband, crate::fixed::qmul(self.band, 0x8000));
        self.outpeak = crate::fixed::qadd(
            self.outpeak,
            crate::fixed::qmul(crate::fixed::qsub(self.low, self.high), 0x8000),
        );
        self.outnotch = crate::fixed::qadd(self.outnotch, crate::fixed::qmul(self.notch, 0x8000));
    }

    /// One pass of the core recurrence over the integrator states.
    fn run_pass(&mut self)
        ensures
            final(self).v() == svf_pass(old(self).v()),
    {
        self.notch = crate::fixed::qsub(self.input, crate::fixed::qmul(self.band, self.damp));
        self.low = crate::fixed::qadd(self.low, crate::fixed::qmul(self.band, self.freq));
        self.high = crate::fixed::qsub(self.notch, self.low);
        let cubic = crate::fixed::qmul(
            crate::fixed::qmul(crate::fixed::qmul(self.drive, self.band), self.band),
            self.band,
        );
        self.band = crate::fixed::qsub(
            crate::fixed::qadd(crate::fixed::qmul(self.high, self.freq), self.band),
            cubic,
        );
    }
}

/// The sine polynomial stays between zero and twice its angle for angles
/// up to one radian.
pub proof fn lemma_sin_poly_range(a: int)
    requires
        0 <= a <= ONE as int,
    ensures
        0 <= sin_poly(a) <= 2 * a,
{
    lemma_scale_frac(a, a, ONE as int);
    let x2 = fx_mul(a, a);
    lemma_scale_frac(x2, a, ONE as int);
    let x3 = fx_mul(x2, a);
    lemma_scale_frac(x3, x2, ONE as int);
    let x5 = fx_mul(x3, x2);
    lemma_tdiv_range(x3, 6);
    lemma_tdiv_range(x5, 120);
}

/// An integer square root of an argument at most `2^32` is at most `2^16`.
proof fn lemma_isqrt_small(x: int, r: int)
    requires
        0 <= x <= 0x1_0000_0000,
        0 <= r,
        r * r <= x,
        (r + 1) * (r + 1) > x,
    ensures
        r <= 0x1_0000,
{
    if r > 0x1_0000 {
        assert(r * r > 0x1_0000_0000) by (nonlinear_arith)
            requires
                r > 0x1_0000,
        ;
    }
}

/// Exact Q16 evaluation of the sine polynomial.
fn sine_poly(a: i64) -> (r: i64)
    requires
        0 <= a <= ONE,
    ensures
        r as int == sin_poly(a as int),
        0 <= r <= 2 * ONE,
{
    proof {
        lemma_sin_poly_range(a as int);
    }
    let x2 = crate::fixed::qmul(a, a);
    let x3 = crate::fixed::qmul(x2, a);
    let x5 = crate::fixed::qmul(x3, x2);
    a - x3 / 6 + x5 / 120
}

/// Silence is a fixed point of the filter: from an all-zero signal state,
/// a zero input leaves every integrator and every output at zero.
pub proof fn lemma_svf_silence(d: SvfV)
    requires
        d.wf(),
        d.notch == 0,
        d.low == 0,
        d.high == 0,
        d.band == 0,
        d.input == 0,
        d.outnotch == 0,
        d.outlow == 0,
        d.outhigh == 0,
        d.outpeak == 0,
        d.outband == 0,
    ensures
        svf_step(d, 0) == d,
{
    crate::fixed::lemma_fx_mul_zero(0, d.damp);
    crate::fixed::lemma_fx_mul_zero(0, d.freq);
    crate::fixed::lemma_fx_mul_zero(d.drive, 0);
    crate::fixed::lemma_fx_mul_zero(0, 0x8000);
    assert(svf_step(d, 0) == d);
}

/// Every output of a processing step stays within the saturation rails,
/// whatever the (clamped) cutoff and resonance: the filter cannot diverge.
pub proof fn lemma_svf_step_bounded(d: SvfV, input: int)
    requires
        d.wf(),
        in_rails(input),
    ensures
        svf_step(d, input).wf(),
        in_rails(svf_step(d, input).outlow),
        in_rails(svf_step(d, input).outhigh),
        in_rails(svf_step(d, input).outband),
        in_rails(svf_step(d, input).outpeak),
        in_rails(svf_step(d, input).outnotch),
{
}

} // verus!
