//! The modulated multi-head delay line.
//!
//! A power-of-two ring buffer of pending future contributions. Each call to
//! [`DelayLine::add_sample`] scatters the input across `heads` write taps:
//! head `h` carries the weight `(2*(heads-h-1) + heads) / (2*heads*(heads+1))`,
//! its sign alternates with `h`, and its static delay shrinks by the ratio
//! `psi` from the previous head's. Every tap's effective delay is the static
//! delay scaled by `gscale` plus `mod_depth * (2 + sin)` from the shared
//! oscillator — the sine is biased so the modulated delay can never go
//! negative — and is split into an integer bin and a fractional remainder
//! that linearly interpolates between two neighbouring bins. Contributions
//! are added into the bins, never overwritten.
//!
//! Each call to [`DelayLine::get_sample`] steps the oscillator, takes the
//! sample under the cursor, zeroes that bin so it cannot leak into a future
//! wrap, advances the cursor with a bitmask, and shapes the tone by the
//! retained low-pass and high-pass filters in cascade.
//!
//! The buffer must be large enough that the largest possible modulated
//! delay stays short of its length; a longer delay wraps and lands on bins
//! that are read earlier. The contracts state exactly where each
//! contribution lands either way.

use vstd::prelude::*;
use vstd::arithmetic::power2::pow2;
use vstd::bits::low_bits_mask;
use crate::fixed::{tdiv, sat, fx_mul, in_rails, ONE, lemma_scale_frac,
    lemma_scale_mono, lemma_tdiv_range, lemma_sat_id};
use crate::filter::{LpFilter, HpFilter, LpV, HpV, lp_step, hp_step};
use crate::osc::{Osc, OscV, osc_step, OSC_ONE};

verus! {

/// Upper bound on any configured delay, in Q16 samples.
pub const DELAY_MAX: i64 = 0x100_0000_0000;

/// Upper bound on the head count.
pub const HEADS_MAX: u32 = 1024;

/// The mathematical state of a delay line.
pub ghost struct DelayV {
    pub mem: Seq<int>,
    pub cur: int,
    pub delay: int,
    pub psi: int,
    pub gscale: int,
    pub mod_depth: int,
    pub heads: int,
    pub lp: LpV,
    pub hp: HpV,
    pub osc: OscV,
}

/// The oscillator's sine reduced to Q16 and biased to `[0, 4]`, the
/// always-positive modulation factor.
pub open spec fn mod_bias(sin: int) -> int {
    2 * ONE as int + tdiv(sin, 0x4000)
}

/// The effective modulated delay of a tap whose static delay is `dly`.
pub open spec fn eff_delay(dly: int, gscale: int, mod_depth: int, sin: int) -> int {
    sat(fx_mul(dly, gscale) + fx_mul(mod_depth, mod_bias(sin)))
}

/// The weight numerator of head `h` out of `heads`.
pub open spec fn head_num(heads: int, h: int) -> int {
    2 * (heads - h - 1) + heads
}

/// The common weight denominator for `heads` heads.
pub open spec fn head_den(heads: int) -> int {
    2 * heads * (heads + 1)
}

/// Distribute one contribution `s` at effective delay `d` (Q16) ahead of
/// the cursor: the integer part picks the bin, the fractional remainder is
/// split linearly across the two neighbouring bins, additively.
pub open spec fn scatter(mem: Seq<int>, cur: int, s: int, d: int) -> Seq<int> {
    let len = mem.len() as int;
    let f = tdiv(d, ONE as int);
    let r = d % (ONE as int);
    let i = (cur + f) % len;
    let j = (cur + f + 1) % len;
    let m1 = mem.update(i, sat(mem[i] + fx_mul(s, ONE as int - r)));
    m1.update(j, sat(m1[j] + fx_mul(s, r)))
}

/// The buffer contents after the heads `h .. d.heads` have written, where
/// `s` is the running (sign-alternated) sample and `dly` the running static
/// delay at head `h`.
pub open spec fn write_from(mem: Seq<int>, s: int, dly: int, d: DelayV, h: int) -> Seq<int>
    decreases d.heads - h,
{
    if h < 0 || h >= d.heads {
        mem
    } else {
        write_from(
            scatter(
                mem,
                d.cur,
                sat(tdiv(s * head_num(d.heads, h), head_den(d.heads))),
                eff_delay(dly, d.gscale, d.mod_depth, d.osc.sin),
            ),
            -s,
            fx_mul(dly, d.psi),
            d,
            h + 1,
        )
    }
}

/// The whole state after one write of `s`.
pub open spec fn dl_write(d: DelayV, s: int) -> DelayV {
    DelayV { mem: write_from(d.mem, s, d.delay, d, 0), ..d }
}

/// The whole state after one read.
pub open spec fn dl_read(d: DelayV) -> DelayV {
    let raw = d.mem[d.cur];
    let lp2 = lp_step(d.lp, raw);
    let hp2 = hp_step(d.hp, lp2.prev_output);
    DelayV {
        mem: d.mem.update(d.cur, 0),
        cur: (d.cur + 1) % (d.mem.len() as int),
        lp: lp2,
        hp: hp2,
        osc: osc_step(d.osc),
        ..d
    }
}

/// The sample a read returns: the bin under the cursor, low-passed then
/// high-passed.
pub open spec fn dl_read_out(d: DelayV) -> int {
    hp_step(d.hp, lp_step(d.lp, d.mem[d.cur]).prev_output).prev_output
}

impl DelayV {
    pub open spec fn wf(self) -> bool {
        &&& 2 <= self.mem.len() <= 0x10_0000
        &&& 0 <= self.cur < self.mem.len()
        &&& forall|i: int| 0 <= i < self.mem.len() ==> in_rails(#[trigger] self.mem[i])
        &&& 0 <= self.delay <= DELAY_MAX as int
        &&& 0 <= self.mod_depth <= DELAY_MAX as int
        &&& 0 <= self.psi <= ONE as int
        &&& 0 <= self.gscale <= ONE as int
        &&& 1 <= self.heads <= HEADS_MAX as int
        &&& self.lp.wf()
        &&& self.hp.wf()
        &&& self.osc.wf()
    }
}

pub struct DelayLine {
    /// The ring buffer of pending contributions; its length is a power of
    /// two so wraparound is a bitmask.
    pub mem: Vec<i64>,
    /// The read/write cursor; advances by one per read.
    pub current: usize,
    /// `mem.len() - 1`, the wraparound bitmask.
    pub mask: usize,
    /// Base-two logarithm of the buffer length.
    pub size_log2: u32,
    /// Base (head 0) static delay, Q16 samples.
    pub delay: i64,
    /// Ratio between successive heads' static delays, Q16 in `[0, 1]`.
    pub psi: i64,
    /// Global scale applied to every static delay, Q16 in `[0, 1]`.
    pub gscale: i64,
    /// Modulation depth, Q16 samples.
    pub mod_depth: i64,
    /// Number of write taps.
    pub heads: u32,
    /// Tone shaping applied on read, before the high-pass.
    pub lp: LpFilter,
    /// Tone shaping applied on read, after the low-pass.
    pub hp: HpFilter,
    /// Drives the delay modulation; advanced once per read.
    pub osc: Osc,
}

impl DelayLine {
    pub open spec fn v(self) -> DelayV {
        DelayV {
            mem: self.mem@.map_values(|x: i64| x as int),
            cur: self.current as int,
            delay: self.delay as int,
            psi: self.psi as int,
            gscale: self.gscale as int,
            mod_depth: self.mod_depth as int,
            heads: self.heads as int,
            lp: self.lp.v(),
            hp: self.hp.v(),
            osc: self.osc.v(),
        }
    }

    pub open spec fn wf(self) -> bool {
        &&& self.v().wf()
        &&& 1 <= self.size_log2 <= 20
        &&& self.mem@.len() == pow2(self.size_log2 as nat)
        &&& self.mask as nat == low_bits_mask(self.size_log2 as nat)
        &&& self.mem@.len() == self.mask as int + 1
    }

    /// Construct a delay line from raw Q16 coefficients, with a buffer of
    /// `1 << size_log2` bins, at phase zero and with silent history.
    pub fn with_coeffs(
        size_log2: u32,
        delay: i64,
        psi: i64,
        gscale: i64,
        mod_depth: i64,
        heads: u32,
        alpha: i64,
        beta: i64,
        osc_dt: i64,
    ) -> (r: DelayLine)
        requires
            1 <= size_log2 <= 20,
            0 <= delay <= DELAY_MAX,
            0 <= mod_depth <= DELAY_MAX,
            0 <= psi <= ONE,
            0 <= gscale <= ONE,
            1 <= heads <= HEADS_MAX,
            0 <= alpha <= ONE,
            0 <= beta <= ONE,
            0 <= osc_dt <= OSC_ONE,
        ensures
            r.wf(),
            r.v() == (DelayV {
                mem: Seq::new(pow2(size_log2 as nat), |i: int| 0),
                cur: 0,
                delay: delay as int,
                psi: psi as int,
                gscale: gscale as int,
                mod_depth: mod_depth as int,
                heads: heads as int,
                lp: LpV { prev_output: 0, alpha: alpha as int },
                hp: HpV { prev_sample: 0, prev_output: 0, beta: beta as int },
                osc: OscV { sin: 0, cos: OSC_ONE as int, dt: osc_dt as int },
            }),
    {
        proof {
            lemma_pow2_in_range(size_log2 as nat);
            vstd::bits::lemma_u64_shl_is_mul(1u64, size_log2 as u64);
        }
        let size: usize = (1u64 << size_log2) as usize;
        let mut mem: Vec<i64> = Vec::new();
        let mut k: usize = 0;
        while k < size
            invariant
                k <= size,
                mem@.len() == k as int,
                forall|i: int| 0 <= i < k as int ==> mem@[i] == 0i64,
            decreases size - k,
        {
            mem.push(0);
            k += 1;
        }
        let r = DelayLine {
            mem,
            current: 0,
            mask: size - 1,
            size_log2,
            delay,
            psi,
            gscale,
            mod_depth,
            heads,
            lp: LpFilter::with_alpha(alpha),
            hp: HpFilter::with_beta(beta),
            osc: Osc { sin: 0, cos: OSC_ONE, dt: osc_dt },
        };
        proof {
            assert(r.v().mem =~= Seq::new(pow2(size_log2 as nat), |i: int| 0));
        }
        r
    }

    /// Construct a delay line the way a patch describes it: the base delay
    /// in milliseconds, the modulation rate in millihertz, and the two tone
    /// cutoffs in hertz, all resolved against the sample rate. The ring
    /// buffer holds `1 << size_log2` bins.
    pub fn new(
        delay_ms: u64,
        mod_freq_mhz: u32,
        high_pass: u32,
        low_pass: u32,
        heads: u32,
        sample_rate: u32,
        size_log2: u32,
        psi: i64,
        gscale: i64,
        mod_depth: i64,
    ) -> (r: DelayLine)
        requires
            1 <= size_log2 <= 20,
            1 <= sample_rate,
            1 <= high_pass,
            1 <= low_pass,
            mod_freq_mhz <= 1000 * sample_rate,
            delay_ms * sample_rate <= 10_000_000_000,
            0 <= mod_depth <= DELAY_MAX,
            0 <= psi <= ONE,
            0 <= gscale <= ONE,
            1 <= heads <= HEADS_MAX,
        ensures
            r.wf(),
            r.v() == (DelayV {
                mem: Seq::new(pow2(size_log2 as nat), |i: int| 0),
                cur: 0,
                delay: delay_ms * sample_rate * ONE / 1000,
                psi: psi as int,
                gscale: gscale as int,
                mod_depth: mod_depth as int,
                heads: heads as int,
                lp: LpV {
                    prev_output: 0,
                    alpha: crate::filter::lp_alpha(low_pass as int, sample_rate as int),
                },
                hp: HpV {
                    prev_sample: 0,
                    prev_output: 0,
                    beta: crate::filter::hp_beta(high_pass as int, sample_rate as int),
                },
                osc: OscV {
                    sin: 0,
                    cos: OSC_ONE as int,
                    dt: OSC_ONE as int * mod_freq_mhz as int / (1000 * sample_rate as int),
                },
            }),
    {
        let samples: u64 = delay_ms * (sample_rate as u64);
        let delay: u64 = samples * (ONE as u64) / 1000;
        proof {
            vstd::arithmetic::div_mod::lemma_div_is_ordered(
                samples as int * ONE as int,
                10_000_000_000 * ONE as int,
                1000,
            );
            assert(10_000_000_000 * ONE as int / 1000 <= DELAY_MAX as int);
            vstd::arithmetic::div_mod::lemma_div_pos_is_pos(samples as int * ONE as int, 1000);
        }
        let mut r = DelayLine::with_coeffs(
            size_log2,
            delay as i64,
            psi,
            gscale,
            mod_depth,
            heads,
            0,
            0,
            0,
        );
        r.lp = LpFilter::new(low_pass, sample_rate);
        r.hp = HpFilter::new(high_pass, sample_rate);
        r.osc = Osc::new(mod_freq_mhz, sample_rate);
        r
    }

    /// Scatter one weighted contribution at static delay `dly` into the
    /// buffer, split across the two bins around the modulated delay.
    fn add_delay(&mut self, sample: i64, dly: i64)
        requires
            old(self).wf(),
            in_rails(sample as int),
            0 <= dly <= DELAY_MAX,
        ensures
            final(self).wf(),
            final(self).v() == (DelayV {
                mem: scatter(
                    old(self).v().mem,
                    old(self).v().cur,
                    sample as int,
                    eff_delay(
                        dly as int,
                        old(self).v().gscale,
                        old(self).v().mod_depth,
                        old(self).v().osc.sin,
                    ),
                ),
                ..old(self).v()
            }),
    {
        let ghost m0 = self.v().mem;
        let bias: i64 = 2 * ONE + self.osc.sin_q16();
        let a = crate::fixed::qmul(dly, self.gscale);
        let b = crate::fixed::qmul(self.mod_depth, bias);
        proof {
            lemma_scale_frac(dly as int, self.gscale as int, ONE as int);
            lemma_mod_part_bounds(self.mod_depth as int, bias as int);
            lemma_sat_id(tdiv(dly as int * self.gscale as int, ONE as int));
            lemma_sat_id(tdiv(self.mod_depth as int * bias as int, ONE as int));
        }
        let d = crate::fixed::qadd(a, b);
        proof {
            lemma_sat_id(a as int + b as int);
            lemma_tdiv_range(d as int, ONE as int);
        }
        let f: u64 = (d / ONE) as u64;
        let rem: i64 = d % ONE;
        let u: u64 = self.current as u64 + f;
        proof {
            lemma_mask_mod(u, self.size_log2 as nat, self.mask as u64);
            lemma_mask_mod((u + 1) as u64, self.size_log2 as nat, self.mask as u64);
        }
        let i = (u & self.mask as u64) as usize;
        let j = ((u + 1) & self.mask as u64) as usize;
        let c1 = crate::fixed::qmul(sample, ONE - rem);
        let c2 = crate::fixed::qmul(sample, rem);
        let t1 = self.mem[i];
        self.mem[i] = crate::fixed::qadd(t1, c1);
        let t2 = self.mem[j];
        self.mem[j] = crate::fixed::qadd(t2, c2);
        proof {
            let dd = eff_delay(dly as int, self.gscale as int, self.mod_depth as int,
                self.osc.v().sin);
            assert(d as int == dd);
            assert(self.v().mem =~= scatter(m0, old(self).v().cur, sample as int, dd));
        }
    }

    /// Write one input sample: distribute it across all heads, with
    /// geometrically shrinking static delays and alternating signs.
    pub fn add_sample(&mut self, sample: i64)
        requires
            old(self).wf(),
            in_rails(sample as int),
        ensures
            final(self).wf(),
            final(self).v() == dl_write(old(self).v(), sample as int),
    {
        let ghost d0 = self.v();
        let mut dly: i64 = self.delay;
        let mut s: i64 = sample;
        let mut h: u32 = 0;
        let heads = self.heads;
        while h < heads
            invariant
                self.wf(),
                heads == d0.heads,
                self.v() == (DelayV { mem: self.v().mem, ..d0 }),
                h <= heads,
                0 <= dly <= DELAY_MAX,
                in_rails(s as int),
                write_from(self.v().mem, s as int, dly as int, d0, h as int) == write_from(
                    d0.mem,
                    sample as int,
                    d0.delay,
                    d0,
                    0,
                ),
            decreases heads - h,
        {
            proof {
                assert(4 <= 2 * heads as int * (heads as int + 1) <= 0x40_0000)
                    by (nonlinear_arith)
                    requires
                        1 <= heads as int <= 1024,
                ;
            }
            let num: u32 = 2 * (heads - h - 1) + heads;
            let den: u32 = 2 * heads * (heads + 1);
            let ghost mem_before = self.v().mem;
            let ws = crate::fixed::qscale(s, num as i64, den as i64);
            self.add_delay(ws, dly);
            proof {
                lemma_scale_frac(dly as int, self.psi as int, ONE as int);
            }
            let new_dly = crate::fixed::qmul(dly, self.psi);
            proof {
                lemma_sat_id(tdiv(dly as int * self.psi as int, ONE as int));
                assert(write_from(mem_before, s as int, dly as int, d0, h as int) == write_from(
                    self.v().mem,
                    -(s as int),
                    new_dly as int,
                    d0,
                    h as int + 1,
                ));
            }
            dly = new_dly;
            s = -s;
            h += 1;
        }
        proof {
            assert(self.v().mem == dl_write(d0, sample as int).mem);
        }
    }

    /// Read one output sample: step the oscillator, take and zero the bin
    /// under the cursor, advance the cursor, and shape the tone by the
    /// low-pass/high-pass cascade.
    pub fn get_sample(&mut self) -> (r: i64)
        requires
            old(self).wf(),
        ensures
            final(self).wf(),
            final(self).v() == dl_read(old(self).v()),
            r == dl_read_out(old(self).v()),
    {
        let ghost d0 = self.v();
        self.osc.inc();
        let sample = self.mem[self.current];
        proof {
            assert(in_rails(d0.mem[d0.cur]));
            assert(sample as int == d0.mem[d0.cur]);
        }
        self.mem[self.current] = 0;
        proof {
            lemma_mask_mod((self.current as u64 + 1) as u64, self.size_log2 as nat,
                self.mask as u64);
        }
        self.current = ((self.current as u64 + 1) & self.mask as u64) as usize;
        let l = self.lp.add_sample(sample);
        let out = self.hp.add_sample(l);
        proof {
            assert(self.v().mem =~= dl_read(d0).mem);
        }
        out
    }
}

/// The modulation part of the effective delay is between 0 and four times
/// the modulation depth.
proof fn lemma_mod_part_bounds(depth: int, bias: int)
    requires
        0 <= depth <= DELAY_MAX as int,
        0 <= bias <= 4 * ONE as int,
    ensures
        0 <= tdiv(depth * bias, ONE as int) <= 4 * depth,
{
    vstd::arithmetic::mul::lemma_mul_nonnegative(depth, bias);
    lemma_tdiv_range(depth * bias, ONE as int);
    lemma_scale_mono(bias, 4 * ONE as int, depth, ONE as int);
    assert(bias * depth == depth * bias) by (nonlinear_arith);
    assert(4 * ONE as int * depth == ONE as int * (4 * depth)) by (nonlinear_arith);
    vstd::arithmetic::div_mod::lemma_div_multiples_vanish(4 * depth, ONE as int);
}

/// For exponents up to 20, `pow2` stays within the buffer-size range.
proof fn lemma_pow2_in_range(k: nat)
    requires
        1 <= k <= 20,
    ensures
        2 <= pow2(k) <= 0x10_0000,
{
    vstd::arithmetic::power2::lemma2_to64();
    if k < 20 {
        vstd::arithmetic::power2::lemma_pow2_strictly_increases(k, 20);
    }
    if k > 1 {
        vstd::arithmetic::power2::lemma_pow2_strictly_increases(1, k);
    }
}

/// Masking with `len - 1` is reduction modulo `len` when `len` is a power
/// of two.
proof fn lemma_mask_mod(x: u64, k: nat, m: u64)
    requires
        1 <= k <= 20,
        m as nat == low_bits_mask(k),
    ensures
        x & m == (x as int) % (m as int + 1),
        x & m <= m,
{
    lemma_pow2_in_range(k);
    vstd::bits::lemma_u64_low_bits_mask_is_mod(x, k);
    assert(pow2(k) as u64 == m + 1);
}

} // verus!
