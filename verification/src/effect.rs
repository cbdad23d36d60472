//! The stereo effect composition.
//!
//! A fixed wiring of the primitives: each channel runs the mono input
//! through two all-pass diffuser stages in series, with slightly different
//! delays, modulation rates and tone filters per channel so that the two
//! channels decorrelate. One call to [`Effect::add_sample`] consumes one
//! mono input sample and yields one stereo pair; all state is carried
//! between calls and the output is a deterministic function of the full
//! prior input history.

use vstd::prelude::*;
use crate::fixed::{sat, fx_mul, in_rails, ONE};
use crate::allpass::{AllPass, AllPassV, ap_step};
use crate::delay::DelayLine;
use crate::filter::{LpV, HpV};
use crate::osc::{OscV, OSC_ONE};

verus! {

/// What a just-constructed diffuser stage of the fixed network looks like:
/// silent history everywhere, the network's shared coefficients, and the
/// stage's own base delay and modulation rate.
pub open spec fn fresh_stage(a: AllPassV, delay_samples: int, osc_dt: int) -> bool {
    &&& a.gain == 32768
    &&& a.prev == 0
    &&& a.delay.cur == 0
    &&& a.delay.delay == delay_samples * ONE as int
    &&& a.delay.heads == 3
    &&& a.delay.psi == 40503
    &&& a.delay.gscale == ONE as int
    &&& a.delay.mod_depth == 8 * ONE as int
    &&& a.delay.mem.len() == 4096
    &&& (forall|i: int| 0 <= i < a.delay.mem.len() ==> a.delay.mem[i] == 0)
    &&& a.delay.lp == (LpV { prev_output: 0, alpha: 28835 })
    &&& a.delay.hp == (HpV { prev_sample: 0, prev_output: 0, beta: 64276 })
    &&& a.delay.osc == (OscV { sin: 0, cos: OSC_ONE as int, dt: osc_dt })
}

/// The mathematical state of the stereo composition.
pub ghost struct EffectV {
    pub l1: AllPassV,
    pub l2: AllPassV,
    pub r1: AllPassV,
    pub r2: AllPassV,
}

impl EffectV {
    pub open spec fn wf(self) -> bool {
        &&& self.l1.wf()
        &&& self.l2.wf()
        &&& self.r1.wf()
        &&& self.r2.wf()
    }
}

/// One composition step: the input runs through both stages of each
/// channel in series.
pub open spec fn effect_step(e: EffectV, s: int) -> EffectV {
    let l1 = ap_step(e.l1, s);
    let l2 = ap_step(e.l2, l1.prev);
    let r1 = ap_step(e.r1, s);
    let r2 = ap_step(e.r2, r1.prev);
    EffectV { l1, l2, r1, r2 }
}

/// The left output of one composition step.
pub open spec fn effect_out_left(e: EffectV, s: int) -> int {
    ap_step(e.l2, ap_step(e.l1, s).prev).prev
}

/// The right output of one composition step.
pub open spec fn effect_out_right(e: EffectV, s: int) -> int {
    ap_step(e.r2, ap_step(e.r1, s).prev).prev
}

pub struct Effect {
    pub l1: AllPass,
    pub l2: AllPass,
    pub r1: AllPass,
    pub r2: AllPass,
}

impl Effect {
    pub open spec fn v(self) -> EffectV {
        EffectV { l1: self.l1.v(), l2: self.l2.v(), r1: self.r1.v(), r2: self.r2.v() }
    }

    pub open spec fn wf(self) -> bool {
        &&& self.l1.wf()
        &&& self.l2.wf()
        &&& self.r1.wf()
        &&& self.r2.wf()
    }

    /// Construct the fixed stereo network: per channel, two diffuser
    /// stages around delay lines of 887/1201 samples (left) and 941/1327
    /// samples (right), three heads each shrinking by the golden ratio,
    /// eight samples of modulation depth at sub-hertz rates, a gentle
    /// low-pass near 6 kHz (`alpha = 0.44`) and a rumble high-pass near
    /// 150 Hz (`beta = 0.98`), and a feedback gain of one half.
    pub fn new() -> (r: Effect)
        ensures
            r.wf(),
            fresh_stage(r.v().l1, 887, 6711),
            fresh_stage(r.v().l2, 1201, 4917),
            fresh_stage(r.v().r1, 941, 7823),
            fresh_stage(r.v().r2, 1327, 4205),
    {
        proof {
            vstd::arithmetic::power2::lemma2_to64();
        }
        let psi: i64 = 40503;  // 0.618 in Q16
        let depth: i64 = 8 * ONE;
        let alpha: i64 = 28835;  // 0.44 in Q16
        let beta: i64 = 64276;  // 0.98 in Q16
        let gain: i64 = 32768;  // 0.5 in Q16
        let l1 = DelayLine::with_coeffs(12, 887 * ONE, psi, ONE, depth, 3, alpha, beta, 6711);
        let l2 = DelayLine::with_coeffs(12, 1201 * ONE, psi, ONE, depth, 3, alpha, beta, 4917);
        let r1 = DelayLine::with_coeffs(12, 941 * ONE, psi, ONE, depth, 3, alpha, beta, 7823);
        let r2 = DelayLine::with_coeffs(12, 1327 * ONE, psi, ONE, depth, 3, alpha, beta, 4205);
        Effect {
            l1: AllPass::new(l1, gain),
            l2: AllPass::new(l2, gain),
            r1: AllPass::new(r1, gain),
            r2: AllPass::new(r2, gain),
        }
    }

    /// Process one mono input sample into one stereo output pair.
    pub fn add_sample(&mut self, sample: i64) -> (r: (i64, i64))
        requires
            old(self).wf(),
            in_rails(sample as int),
        ensures
            final(self).wf(),
            final(self).v() == effect_step(old(self).v(), sample as int),
            r.0 == effect_out_left(old(self).v(), sample as int),
            r.1 == effect_out_right(old(self).v(), sample as int),
    {
        let a = self.l1.add_sample(sample);
        let l = self.l2.add_sample(a);
        let b = self.r1.add_sample(sample);
        let r = self.r2.add_sample(b);
        (l, r)
    }
}

/// Blend a processed (wet) sample with the dry input:
/// `wet * mix + dry * (1 - mix)`, both terms in Q16.
pub fn mix_sample(wet: i64, dry: i64, mix: i64) -> (r: i64)
    requires
        0 <= mix <= ONE,
    ensures
        r == sat(fx_mul(wet as int, mix as int) + fx_mul(dry as int, ONE - mix as int)),
{
    let a = crate::fixed::qmul(wet, mix);
    let b = crate::fixed::qmul(dry, ONE - mix);
    crate::fixed::qadd(a, b)
}

} // verus!
