//! The two pure numeric conversions at the process boundary: 16-bit PCM
//! samples to and from the engine's normalized Q16 signal values, linearly
//! scaled by the 16-bit maximum magnitude.

use vstd::prelude::*;
use crate::fixed::{tdiv, ONE};

verus! {

/// What a PCM sample becomes in Q16: `p / 32767`, full scale to 1.0.
pub open spec fn pcm_to_q16(p: int) -> int {
    tdiv(p * ONE as int, 32767)
}

/// What a Q16 value becomes in PCM: `v * 32767`, clamped to the 16-bit
/// range.
pub open spec fn q16_to_pcm(v: int) -> int {
    let t = tdiv(v * 32767, ONE as int);
    if t > 32767 {
        32767
    } else if t < -32768 {
        -32768
    } else {
        t
    }
}

/// Normalize one 16-bit PCM sample to a Q16 signal value.
pub fn sample_to_q16(sample: i16) -> (r: i64)
    ensures
        r == pcm_to_q16(sample as int),
        -ONE - 2 <= r <= ONE,
{
    let t: i64 = (sample as i64) * ONE / 32767;
    proof {
        crate::fixed::lemma_tdiv_range(sample as int * ONE as int, 32767);
        if sample as int >= 0 {
            vstd::arithmetic::div_mod::lemma_div_is_ordered(
                sample as int * ONE as int,
                32767 * ONE as int,
                32767,
            );
            vstd::arithmetic::div_mod::lemma_div_multiples_vanish(ONE as int, 32767);
        } else {
            vstd::arithmetic::div_mod::lemma_div_is_ordered(
                -(sample as int) * ONE as int,
                2147483648,
                32767,
            );
            assert(2147483648int / 32767 == 65538);
        }
    }
    t
}

/// Scale a Q16 signal value back to a 16-bit PCM sample, clamping at full
/// scale as a float-to-integer cast would.
pub fn q16_to_sample(v: i64) -> (r: i16)
    ensures
        r == q16_to_pcm(v as int),
{
    proof {
        assert(v as int * 32767 <= 0x8000_0000_0000_0000 * 0x8000
            && -(0x8000_0000_0000_0000 * 0x8000) <= v as int * 32767)
            by (nonlinear_arith)
            requires
                -0x8000_0000_0000_0000 <= v as int <= 0x7FFF_FFFF_FFFF_FFFF,
        ;
    }
    let p: i128 = (v as i128) * 32767;
    let t: i128 = p / (ONE as i128);
    assert(t == tdiv(v as int * 32767, ONE as int));
    if t > 32767 {
        32767
    } else if t < -32768 {
        -32768
    } else {
        t as i16
    }
}

} // verus!
