//! The all-pass diffuser stage.
//!
//! Wraps a [`DelayLine`] with a feedback coefficient: each input has
//! `gain` times the previous output subtracted before it enters the delay,
//! and the delay's output becomes both the stage's output and the next
//! feedback term. Around a plain fixed delay this is the textbook all-pass
//! topology; around the modulated multi-head delay used here it acts as a
//! modulated diffuser.

use vstd::prelude::*;
use crate::fixed::{sat, fx_mul, in_rails, ONE};
use crate::delay::{DelayLine, DelayV, dl_write, dl_read, dl_read_out};

verus! {

/// The mathematical state of an all-pass stage.
pub ghost struct AllPassV {
    pub delay: DelayV,
    pub gain: int,
    pub prev: int,
}

impl AllPassV {
    pub open spec fn wf(self) -> bool {
        &&& self.delay.wf()
        &&& -(ONE as int) <= self.gain <= ONE as int
        &&& in_rails(self.prev)
    }
}

/// What enters the delay line: the input minus the fed-back previous
/// output, weighted by `gain`.
pub open spec fn ap_input(a: AllPassV, s: int) -> int {
    sat(s - fx_mul(a.prev, a.gain))
}

/// One stage step: write the feedback-corrected input, then read.
pub open spec fn ap_step(a: AllPassV, s: int) -> AllPassV {
    let d1 = dl_write(a.delay, ap_input(a, s));
    AllPassV { delay: dl_read(d1), gain: a.gain, prev: dl_read_out(d1) }
}

pub struct AllPass {
    /// The wrapped modulated delay line.
    pub delay: DelayLine,
    /// Feedback coefficient, Q16 in `[-1, 1]`.
    pub gain: i64,
    /// The previous output, fed back into the next input.
    pub prev: i64,
}

impl AllPass {
    pub open spec fn v(self) -> AllPassV {
        AllPassV { delay: self.delay.v(), gain: self.gain as int, prev: self.prev as int }
    }

    pub open spec fn wf(self) -> bool {
        &&& self.delay.wf()
        &&& self.v().wf()
    }

    /// Wrap a delay line with a feedback gain.
    pub fn new(delay: DelayLine, gain: i64) -> (r: AllPass)
        requires
            delay.wf(),
            -ONE <= gain <= ONE,
        ensures
            r.wf(),
            r.v() == (AllPassV { delay: delay.v(), gain: gain as int, prev: 0 }),
    {
        AllPass { delay, gain, prev: 0 }
    }

    /// Process one sample through the diffuser.
    pub fn add_sample(&mut self, sample: i64) -> (r: i64)
        requires
            old(self).wf(),
            in_rails(sample as int),
        ensures
            final(self).wf(),
            final(self).v() == ap_step(old(self).v(), sample as int),
            r == final(self).v().prev,
    {
        let fb = crate::fixed::qmul(self.prev, self.gain);
        let input = crate::fixed::qsub(sample, fb);
        self.delay.add_sample(input);
        self.prev = self.delay.get_sample();
        self.prev
    }
}

/// With a zero gain the feedback term vanishes and the stage reduces
/// exactly to the underlying delay line: the same write of the raw input,
/// then the same read.
pub proof fn lemma_allpass_zero_gain(a: AllPassV, s: int)
    requires
        a.wf(),
        a.gain == 0,
        in_rails(s),
    ensures
        ap_step(a, s).delay == dl_read(dl_write(a.delay, s)),
        ap_step(a, s).prev == dl_read_out(dl_write(a.delay, s)),
{
    crate::fixed::lemma_fx_mul_zero(a.prev, 0);
    crate::fixed::lemma_sat_id(s);
}

} // verus!
