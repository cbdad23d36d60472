//! A low-frequency rotation oscillator.
//!
//! The state is a `(sin, cos)` pair in Q30 fixed point (`OSC_ONE` stands
//! for 1.0) together with a fixed angular step `dt` per sample. Each call
//! to [`Osc::inc`] performs one step of the "magic circle" rotation
//! recurrence: `sin += cos * dt; cos -= sin * dt`, where the `cos` update
//! already uses the new `sin`. The pair is clamped to twice unit length so
//! that slow numerical drift of the approximate rotation can never leave
//! the stated range; at audio rates the clamp is never reached.

use vstd::prelude::*;
use crate::fixed::tdiv;

verus! {

/// The Q30 fixed-point representation of 1.0 used for the oscillator state.
pub const OSC_ONE: i64 = 0x4000_0000;

/// Clamp an oscillator component to twice unit length.
pub open spec fn osc_clamp(v: int) -> int {
    if v > 2 * OSC_ONE as int {
        2 * OSC_ONE as int
    } else if v < -2 * OSC_ONE as int {
        -2 * OSC_ONE as int
    } else {
        v
    }
}

/// Q30 product of an oscillator component with the angular step.
pub open spec fn osc_mul(x: int, c: int) -> int {
    tdiv(x * c, OSC_ONE as int)
}

/// The mathematical state of an oscillator.
pub ghost struct OscV {
    pub sin: int,
    pub cos: int,
    pub dt: int,
}

impl OscV {
    /// Range constraints every oscillator satisfies.
    pub open spec fn wf(self) -> bool {
        &&& -2 * OSC_ONE as int <= self.sin <= 2 * OSC_ONE as int
        &&& -2 * OSC_ONE as int <= self.cos <= 2 * OSC_ONE as int
        &&& 0 <= self.dt <= OSC_ONE as int
    }
}

/// One rotation step: the law of what `inc` does to the state.
pub open spec fn osc_step(o: OscV) -> OscV {
    let s = osc_clamp(o.sin + osc_mul(o.cos, o.dt));
    let c = osc_clamp(o.cos - osc_mul(s, o.dt));
    OscV { sin: s, cos: c, dt: o.dt }
}

/// A rotation step preserves the oscillator's range constraints.
pub proof fn lemma_osc_step_wf(o: OscV)
    requires
        o.wf(),
    ensures
        osc_step(o).wf(),
{
}

pub struct Osc {
    /// Current sine component, Q30.
    pub sin: i64,
    /// Current cosine component, Q30.
    pub cos: i64,
    /// Angular step per sample, Q30; `dt = 2 * pi * f / sample_rate` would
    /// be the exact rotation, and this first-order recurrence approximates
    /// it with `dt = f_turns ~ freq / sample_rate` radians-per-sample
    /// scaling chosen by the caller through `new`.
    pub dt: i64,
}

impl Osc {
    pub open spec fn v(self) -> OscV {
        OscV { sin: self.sin as int, cos: self.cos as int, dt: self.dt as int }
    }

    pub open spec fn wf(self) -> bool {
        self.v().wf()
    }

    /// Construct an oscillator at phase zero.
    ///
    /// `freq_mhz` is the modulation frequency in millihertz, so that
    /// sub-hertz chorus rates keep their precision; the angular step is
    /// `OSC_ONE * freq_mhz / (1000 * sample_rate)`, truncated.
    pub fn new(freq_mhz: u32, sample_rate: u32) -> (r: Osc)
        requires
            sample_rate >= 1,
            freq_mhz <= 1000 * sample_rate,
        ensures
            r.v() == (OscV {
                sin: 0,
                cos: OSC_ONE as int,
                dt: OSC_ONE as int * freq_mhz as int / (1000 * sample_rate as int),
            }),
            r.wf(),
    {
        proof {
            assert(OSC_ONE as int * freq_mhz as int <= 0x4000_0000 * 0xFFFF_FFFF)
                by (nonlinear_arith)
                requires
                    freq_mhz as int <= 0xFFFF_FFFF,
            ;
        }
        let num: u64 = (OSC_ONE as u64) * (freq_mhz as u64);
        let den: u64 = 1000u64 * (sample_rate as u64);
        let dt: u64 = num / den;
        proof {
            assert(num as int <= OSC_ONE as int * (1000 * sample_rate as int)) by (nonlinear_arith)
                requires
                    num == OSC_ONE as int * freq_mhz as int,
                    freq_mhz as int <= 1000 * sample_rate as int,
            ;
            vstd::arithmetic::div_mod::lemma_div_multiples_vanish(OSC_ONE as int, den as int);
            vstd::arithmetic::div_mod::lemma_div_is_ordered(
                num as int,
                den as int * OSC_ONE as int,
                den as int,
            );
            assert(den as int * OSC_ONE as int == OSC_ONE as int * (1000 * sample_rate as int))
                by (nonlinear_arith)
                requires
                    den == 1000 * sample_rate as int,
            ;
            vstd::arithmetic::div_mod::lemma_div_pos_is_pos(num as int, den as int);
        }
        Osc { sin: 0, cos: OSC_ONE, dt: dt as i64 }
    }

    /// Advance the rotation by one sample.
    pub fn inc(&mut self)
        requires
            old(self).wf(),
        ensures
            final(self).v() == osc_step(old(self).v()),
            final(self).wf(),
    {
        proof {
            lemma_osc_mul_bound(self.cos as int, self.dt as int);
        }
        let ds: i64 = osc_product(self.cos, self.dt);
        self.sin = clamp2(self.sin + ds);
        proof {
            lemma_osc_mul_bound(self.sin as int, self.dt as int);
        }
        let dc: i64 = osc_product(self.sin, self.dt);
        self.cos = clamp2(self.cos - dc);
    }

    /// The sine component converted to the Q16 format of signal values.
    pub fn sin_q16(&self) -> (r: i64)
        requires
            self.wf(),
        ensures
            r == tdiv(self.v().sin, 0x4000),
            -0x2_0000 <= r <= 0x2_0000,
    {
        proof {
            lemma_tdiv_q16_range(self.sin as int);
        }
        self.sin / 0x4000
    }
}

/// The scaled product never exceeds the magnitude of the component.
proof fn lemma_osc_mul_bound(x: int, c: int)
    requires
        -2 * OSC_ONE as int <= x <= 2 * OSC_ONE as int,
        0 <= c <= OSC_ONE as int,
    ensures
        -2 * OSC_ONE as int <= osc_mul(x, c) <= 2 * OSC_ONE as int,
{
    crate::fixed::lemma_scale_frac(x, c, OSC_ONE as int);
}

proof fn lemma_tdiv_q16_range(x: int)
    requires
        -2 * OSC_ONE as int <= x <= 2 * OSC_ONE as int,
    ensures
        -0x2_0000 <= tdiv(x, 0x4000) <= 0x2_0000,
{
    if x >= 0 {
        vstd::arithmetic::div_mod::lemma_div_pos_is_pos(x, 0x4000);
        vstd::arithmetic::div_mod::lemma_div_is_ordered(x, 2 * OSC_ONE as int, 0x4000);
        assert(2 * OSC_ONE as int / 0x4000 == 0x2_0000);
    } else {
        vstd::arithmetic::div_mod::lemma_div_pos_is_pos(-x, 0x4000);
        vstd::arithmetic::div_mod::lemma_div_is_ordered(-x, 2 * OSC_ONE as int, 0x4000);
        assert(2 * OSC_ONE as int / 0x4000 == 0x2_0000);
    }
}

/// Exact Q30 product of two oscillator quantities.
fn osc_product(x: i64, c: i64) -> (r: i64)
    requires
        -2 * OSC_ONE as int <= x <= 2 * OSC_ONE as int,
        0 <= c <= OSC_ONE as int,
    ensures
        r == osc_mul(x as int, c as int),
{
    proof {
        assert(x as int * c as int <= 2 * OSC_ONE as int * OSC_ONE as int
            && -(2 * OSC_ONE as int * OSC_ONE as int) <= x as int * c as int)
            by (nonlinear_arith)
            requires
                -2 * OSC_ONE as int <= x as int <= 2 * OSC_ONE as int,
                0 <= c as int <= OSC_ONE as int,
        ;
        crate::fixed::lemma_scale_frac(x as int, c as int, OSC_ONE as int);
    }
    let p: i128 = (x as i128) * (c as i128);
    let q: i128 = p / (OSC_ONE as i128);
    q as i64
}

/// Clamp to twice the oscillator's unit length.
fn clamp2(v: i64) -> (r: i64)
    requires
        -4 * OSC_ONE as int <= v <= 4 * OSC_ONE as int,
    ensures
        r == osc_clamp(v as int),
{
    if v > 2 * OSC_ONE {
        2 * OSC_ONE
    } else if v < -2 * OSC_ONE {
        -2 * OSC_ONE
    } else {
        v
    }
}

} // verus!
