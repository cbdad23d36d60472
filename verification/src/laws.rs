//! Laws that relate several primitives or several calls.
//!
//! The per-call behaviour of every primitive is already pinned down by its
//! method contract; this module states and proves what follows over whole
//! call sequences: the head weights' closed-form sum; that silence is a
//! fixed point of the delay line, of a diffuser stage and of the whole
//! stereo network; the pure-delay round trip of an unmodulated single-head
//! line after one write, which also exercises the buffer's bitmask
//! wraparound when the delay equals the buffer length minus one; and the
//! same round trip over an arbitrary input stream, one write-read cycle
//! per sample.

use vstd::prelude::*;
use crate::fixed::{tdiv, sat, fx_mul, in_rails, ONE, SAT_LIMIT, lemma_fx_mul_unit,
    lemma_fx_mul_zero, lemma_tdiv_range, lemma_sat_id};
use crate::filter::{lp_step, hp_step, lemma_lp_silence, lemma_hp_silence};
use crate::delay::{DelayV, dl_write, dl_read, dl_read_out, write_from, scatter, eff_delay,
    head_num, head_den, mod_bias};
use crate::allpass::{AllPassV, ap_step, ap_input};
use crate::effect::{EffectV, effect_step, effect_out_left, effect_out_right};

verus! {

/// The sum of the weight numerators of heads `h .. heads`.
pub open spec fn head_num_sum(heads: int, h: int) -> int
    decreases heads - h,
{
    if h < 0 || h >= heads {
        0
    } else {
        head_num(heads, h) + head_num_sum(heads, h + 1)
    }
}

proof fn lemma_head_num_sum_closed(heads: int, h: int)
    requires
        0 <= h <= heads,
    ensures
        head_num_sum(heads, h) == (heads - h) * (2 * heads - 1 - h),
    decreases heads - h,
{
    if h < heads {
        lemma_head_num_sum_closed(heads, h + 1);
        assert(head_num(heads, h) + (heads - h - 1) * (2 * heads - 1 - h - 1) == (heads - h) * (
        2 * heads - 1 - h)) by (nonlinear_arith);
    } else {
        assert((heads - h) * (2 * heads - 1 - h) == 0) by (nonlinear_arith)
            requires
                h == heads,
        ;
    }
}

/// The head weights share the denominator `2 * heads * (heads + 1)` and
/// their numerators sum to `heads * (2 * heads - 1)`: the weights total
/// `(2*heads - 1) / (2*heads + 2)`, strictly below one, approaching one as
/// the head count grows, and favouring the earlier (longer-delay
/// numerator) heads.
pub proof fn lemma_head_weight_sum(heads: int)
    requires
        1 <= heads,
    ensures
        head_num_sum(heads, 0) == heads * (2 * heads - 1),
        head_den(heads) == 2 * heads * (heads + 1),
        head_num_sum(heads, 0) < head_den(heads),
{
    lemma_head_num_sum_closed(heads, 0);
    assert(heads * (2 * heads - 1) < 2 * heads * (heads + 1)) by (nonlinear_arith)
        requires
            1 <= heads,
    ;
}

/// The state after `n` consecutive reads.
pub open spec fn reads(d: DelayV, n: int) -> DelayV
    decreases n,
{
    if n <= 0 {
        d
    } else {
        dl_read(reads(d, n - 1))
    }
}

/// The sample returned by the read after `n` earlier reads.
pub open spec fn read_out_at(d: DelayV, n: int) -> int {
    dl_read_out(reads(d, n))
}

/// A delay line whose tone filters are at identity coefficients with
/// silent history.
pub open spec fn filters_clear(d: DelayV) -> bool {
    &&& d.lp.alpha == ONE as int
    &&& d.hp.beta == ONE as int
    &&& d.lp.prev_output == 0
    &&& d.hp.prev_sample == 0
    &&& d.hp.prev_output == 0
}

/// Reading over silent bins returns silence and leaves the buffer's other
/// bins untouched: after `n` reads over zeros, only the cursor has moved.
proof fn lemma_quiet_reads(d: DelayV, n: int)
    requires
        d.wf(),
        filters_clear(d),
        0 <= n,
        forall|k: int| 0 <= k < n ==> d.mem[#[trigger] ((d.cur + k) % (d.mem.len() as int))] == 0,
    ensures
        reads(d, n).wf(),
        filters_clear(reads(d, n)),
        reads(d, n).mem == d.mem,
        reads(d, n).cur == (d.cur + n) % (d.mem.len() as int),
        reads(d, n) == (DelayV {
            cur: (d.cur + n) % (d.mem.len() as int),
            osc: reads(d, n).osc,
            ..d
        }),
        forall|m: int| 0 <= m < n ==> read_out_at(d, m) == 0,
    decreases n,
{
    let len = d.mem.len() as int;
    if n == 0 {
        vstd::arithmetic::div_mod::lemma_small_mod(d.cur as nat, len as nat);
    } else {
        lemma_quiet_reads(d, n - 1);
        let q = reads(d, n - 1);
        let raw = q.mem[q.cur];
        assert(raw == 0);
        lemma_lp_silence(q.lp);
        lemma_hp_silence(q.hp);
        lemma_fx_mul_zero(0, q.lp.alpha);
        assert(q.mem.update(q.cur, 0) =~= q.mem);
        vstd::arithmetic::div_mod::lemma_add_mod_noop(d.cur + (n - 1), 1, len);
        vstd::arithmetic::div_mod::lemma_small_mod(1nat, len as nat);
        assert((q.cur + 1) % len == (d.cur + n) % len);
        assert(read_out_at(d, n - 1) == 0);
        assert(forall|m: int| 0 <= m < n ==> read_out_at(d, m) == 0);
    }
}

/// Two distinct offsets within one buffer length land on distinct bins.
proof fn lemma_window_distinct(c: int, a: int, b: int, len: int)
    requires
        0 <= a < b,
        b - a < len,
    ensures
        (c + a) % len != (c + b) % len,
{
    if (c + a) % len == (c + b) % len {
        vstd::arithmetic::div_mod::lemma_mod_equivalence(c + b, c + a, len);
        vstd::arithmetic::div_mod::lemma_small_mod((b - a) as nat, len as nat);
    }
}

/// The pure-delay round trip. A single-head line with zero modulation
/// depth, unit global scale, identity tone filters and an integral delay
/// of `dd` samples is a pure delay with weight 1/4 (the one head's
/// weight): after one write of `s` into a silent line, the first `dd`
/// reads return silence and the read `dd` positions later returns
/// `s / 4` exactly — also when `dd` equals the buffer length minus one,
/// where the scattered bin wraps around the buffer end.
pub proof fn lemma_pure_delay_roundtrip(d: DelayV, s: int, dd: int)
    requires
        d.wf(),
        filters_clear(d),
        d.heads == 1,
        d.mod_depth == 0,
        d.gscale == ONE as int,
        1 <= dd <= d.mem.len() - 1,
        d.delay == dd * ONE as int,
        forall|k: int| 0 <= k < d.mem.len() ==> d.mem[k] == 0,
        in_rails(s),
    ensures
        forall|n: int| 0 <= n < dd ==> read_out_at(dl_write(d, s), n) == 0,
        read_out_at(dl_write(d, s), dd) == tdiv(s, 4),
{
    let len = d.mem.len() as int;
    let w = dl_write(d, s);
    let ws = sat(tdiv(s * head_num(1, 0), head_den(1)));
    let i0 = (d.cur + dd) % len;

    // The one head writes tdiv(s, 4) into the bin dd ahead of the cursor.
    assert(head_num(1, 0) == 1 && head_den(1) == 4);
    assert(s * 1 == s) by (nonlinear_arith);
    lemma_tdiv_range(s, 4);
    lemma_sat_id(tdiv(s, 4));
    assert(ws == tdiv(s, 4));
    assert(0 <= dd * ONE as int <= SAT_LIMIT as int) by (nonlinear_arith)
        requires
            1 <= dd <= 0x10_0000,
    ;
    lemma_fx_mul_unit(dd * ONE as int);
    lemma_fx_mul_zero(0, mod_bias(d.osc.sin));
    lemma_sat_id(dd * ONE as int);
    let eff = eff_delay(d.delay, d.gscale, d.mod_depth, d.osc.sin);
    assert(eff == dd * ONE as int);
    vstd::arithmetic::div_mod::lemma_div_multiples_vanish(dd, ONE as int);
    assert(dd * ONE as int == ONE as int * dd) by (nonlinear_arith);
    assert(tdiv(eff, ONE as int) == dd);
    vstd::arithmetic::div_mod::lemma_mod_multiples_basic(dd, ONE as int);
    assert(eff % (ONE as int) == 0);
    lemma_fx_mul_unit(ws);
    lemma_fx_mul_zero(ws, 0);
    lemma_sat_id(0 + ws);
    let m1 = d.mem.update(i0, sat(d.mem[i0] + fx_mul(ws, ONE as int - 0)));
    assert(m1[(d.cur + dd + 1) % len] + fx_mul(ws, 0) == m1[(d.cur + dd + 1) % len]);
    assert(in_rails(m1[(d.cur + dd + 1) % len]));
    assert(m1.update((d.cur + dd + 1) % len, sat(m1[(d.cur + dd + 1) % len] + fx_mul(ws, 0)))
        =~= m1);
    assert(scatter(d.mem, d.cur, ws, eff) == m1);
    assert(write_from(d.mem, s, d.delay, d, 0) == write_from(m1, -s, fx_mul(d.delay, d.psi), d, 1));
    assert(w.mem == m1);
    assert(w.mem[i0] == tdiv(s, 4));

    // The dd bins before it hold silence.
    assert forall|k: int| 0 <= k < dd implies w.mem[#[trigger] ((w.cur + k) % len)] == 0 by {
        lemma_window_distinct(d.cur, k, dd, len);
        vstd::arithmetic::div_mod::lemma_mod_bound(w.cur + k, len);
        assert(d.mem[(w.cur + k) % len] == 0);
    }
    lemma_quiet_reads(w, dd);

    // The read dd positions later finds the weighted sample under the
    // cursor and the identity filters pass it through.
    let q = reads(w, dd);
    vstd::arithmetic::div_mod::lemma_mod_bound(d.cur + dd, len);
    assert(q.cur == i0);
    assert(q.mem[q.cur] == tdiv(s, 4));
    let raw = tdiv(s, 4);
    lemma_sat_id(raw - 0);
    lemma_fx_mul_unit(raw);
    lemma_sat_id(0 + raw);
    assert(lp_step(q.lp, raw).prev_output == raw);
    assert(hp_step(q.hp, raw).prev_output == raw);
    assert(read_out_at(w, dd) == raw);
}

/// A zero contribution leaves every bin as it was.
proof fn lemma_scatter_zero(mem: Seq<int>, cur: int, d: int)
    requires
        mem.len() >= 1,
        forall|k: int| 0 <= k < mem.len() ==> in_rails(#[trigger] mem[k]),
    ensures
        scatter(mem, cur, 0, d) == mem,
{
    let len = mem.len() as int;
    lemma_fx_mul_zero(0, ONE as int - d % (ONE as int));
    lemma_fx_mul_zero(0, d % (ONE as int));
    let f = tdiv(d, ONE as int);
    vstd::arithmetic::div_mod::lemma_mod_bound(cur + f, len);
    vstd::arithmetic::div_mod::lemma_mod_bound(cur + f + 1, len);
    let i = (cur + f) % len;
    let j = (cur + f + 1) % len;
    lemma_sat_id(mem[i] + 0);
    assert(mem.update(i, sat(mem[i] + 0)) =~= mem);
    lemma_sat_id(mem[j] + 0);
    assert(scatter(mem, cur, 0, d) =~= mem);
}

/// Writing silence, head by head, changes nothing.
proof fn lemma_write_zero(mem: Seq<int>, dly: int, d: DelayV, h: int)
    requires
        mem.len() >= 1,
        1 <= d.heads,
        forall|k: int| 0 <= k < mem.len() ==> in_rails(#[trigger] mem[k]),
    ensures
        write_from(mem, 0, dly, d, h) == mem,
    decreases d.heads - h,
{
    if 0 <= h < d.heads {
        assert(0 * head_num(d.heads, h) == 0) by (nonlinear_arith);
        assert(head_den(d.heads) >= 4) by (nonlinear_arith)
            requires
                1 <= d.heads,
        ;
        vstd::arithmetic::div_mod::lemma_div_of0(head_den(d.heads));
        assert(sat(tdiv(0 * head_num(d.heads, h), head_den(d.heads))) == 0);
        lemma_scatter_zero(mem, d.cur, eff_delay(dly, d.gscale, d.mod_depth, d.osc.sin));
        lemma_write_zero(mem, fx_mul(dly, d.psi), d, h + 1);
    }
}

/// Silence in, silence out: a delay line whose buffer and filter histories
/// are silent is left unchanged by writing a zero sample — whatever its
/// delay, head count, modulation or tone coefficients — and a read returns
/// zero and keeps the buffer and the filters silent.
pub proof fn lemma_delay_silence(d: DelayV)
    requires
        d.wf(),
        d.lp.prev_output == 0,
        d.hp.prev_sample == 0,
        d.hp.prev_output == 0,
        forall|k: int| 0 <= k < d.mem.len() ==> d.mem[k] == 0,
    ensures
        dl_write(d, 0) == d,
        dl_read_out(d) == 0,
        dl_read(d).mem == d.mem,
        dl_read(d).lp == d.lp,
        dl_read(d).hp == d.hp,
{
    lemma_write_zero(d.mem, d.delay, d, 0);
    lemma_lp_silence(d.lp);
    lemma_hp_silence(d.hp);
    assert(d.mem.update(d.cur, 0) =~= d.mem);
}

/// A silent diffuser stage, and a stage's whole silent history.
pub open spec fn stage_silent(a: AllPassV) -> bool {
    &&& a.prev == 0
    &&& a.delay.lp.prev_output == 0
    &&& a.delay.hp.prev_sample == 0
    &&& a.delay.hp.prev_output == 0
    &&& forall|k: int| 0 <= k < a.delay.mem.len() ==> a.delay.mem[k] == 0
}

/// Silence in, silence out, through a whole diffuser stage: whatever its
/// gain, a silent stage fed a zero sample emits zero and stays silent.
pub proof fn lemma_allpass_silence(a: AllPassV)
    requires
        a.wf(),
        stage_silent(a),
    ensures
        ap_step(a, 0).prev == 0,
        stage_silent(ap_step(a, 0)),
        ap_step(a, 0).gain == a.gain,
{
    lemma_fx_mul_zero(a.prev, a.gain);
    lemma_sat_id(0);
    assert(ap_input(a, 0) == 0);
    lemma_delay_silence(a.delay);
}

/// Silence in, silence out, through the whole stereo network: a silent
/// composition fed a zero input emits a zero stereo pair and stays silent.
pub proof fn lemma_effect_silence(e: EffectV)
    requires
        e.wf(),
        stage_silent(e.l1),
        stage_silent(e.l2),
        stage_silent(e.r1),
        stage_silent(e.r2),
    ensures
        effect_out_left(e, 0) == 0,
        effect_out_right(e, 0) == 0,
        stage_silent(effect_step(e, 0).l1),
        stage_silent(effect_step(e, 0).l2),
        stage_silent(effect_step(e, 0).r1),
        stage_silent(effect_step(e, 0).r2),
{
    lemma_allpass_silence(e.l1);
    lemma_allpass_silence(e.l2);
    lemma_allpass_silence(e.r1);
    lemma_allpass_silence(e.r2);
}

/// The state after feeding a whole input stream, one write-then-read cycle
/// per sample.
pub open spec fn stream(d: DelayV, xs: Seq<int>) -> DelayV
    decreases xs.len(),
{
    if xs.len() == 0 {
        d
    } else {
        dl_read(dl_write(stream(d, xs.drop_last()), xs.last()))
    }
}

/// The sample the line returns at step `n` of a stream.
pub open spec fn stream_out(d: DelayV, xs: Seq<int>, n: int) -> int {
    dl_read_out(dl_write(stream(d, xs.take(n)), xs[n]))
}

/// What a single-head pure delay of `dd` samples must return at step `t`:
/// the input from `dd` steps earlier at the head's weight 1/4, and silence
/// while no input is old enough.
pub open spec fn expected_out(xs: Seq<int>, dd: int, t: int) -> int {
    if t >= dd {
        tdiv(xs[t - dd], 4)
    } else {
        0
    }
}

/// The single-head, zero-modulation, unit-scale, identity-filter
/// configuration under which the line is a pure delay of `dd` samples.
pub open spec fn pure_cfg(d: DelayV, dd: int) -> bool {
    &&& d.heads == 1
    &&& d.mod_depth == 0
    &&& d.gscale == ONE as int
    &&& d.lp.alpha == ONE as int
    &&& d.hp.beta == ONE as int
    &&& 1 <= dd <= d.mem.len() - 1
    &&& d.delay == dd * ONE as int
    &&& 2 <= d.mem.len() <= 0x10_0000
}

/// The shape of a pure delay's state after `n` processed samples: the
/// cursor has advanced `n` positions, the filters hold the previous
/// output, and the bin `k` positions ahead holds the pending contribution
/// of the input from step `n + k - dd`.
pub open spec fn stream_inv(d0: DelayV, xs: Seq<int>, dd: int, n: int, s: DelayV) -> bool {
    let len = d0.mem.len() as int;
    &&& s.mem.len() == len
    &&& s.delay == d0.delay
    &&& s.heads == 1
    &&& s.gscale == ONE as int
    &&& s.mod_depth == 0
    &&& s.lp.alpha == ONE as int
    &&& s.hp.beta == ONE as int
    &&& s.cur == (d0.cur + n) % len
    &&& s.lp.prev_output == expected_out(xs, dd, n - 1)
    &&& s.hp.prev_sample == expected_out(xs, dd, n - 1)
    &&& s.hp.prev_output == expected_out(xs, dd, n - 1)
    &&& forall|k: int|
        0 <= k < len ==> s.mem[#[trigger] ((s.cur + k) % len)] == if dd - n <= k < dd {
            tdiv(xs[n + k - dd], 4)
        } else {
            0
        }
}

/// The weighted contributions stay a quarter of the rails.
proof fn lemma_quarter_bound(x: int)
    requires
        in_rails(x),
    ensures
        -(SAT_LIMIT as int) / 4 <= tdiv(x, 4) <= SAT_LIMIT as int / 4,
        in_rails(tdiv(x, 4)),
{
    if x >= 0 {
        vstd::arithmetic::div_mod::lemma_div_is_ordered(x, SAT_LIMIT as int, 4);
        vstd::arithmetic::div_mod::lemma_div_pos_is_pos(x, 4);
    } else {
        vstd::arithmetic::div_mod::lemma_div_is_ordered(-x, SAT_LIMIT as int, 4);
        vstd::arithmetic::div_mod::lemma_div_pos_is_pos(-x, 4);
    }
}

/// A reduced summand does not change a sum's residue.
proof fn lemma_mod_shift(a: int, b: int, m: int)
    requires
        m >= 1,
    ensures
        (a % m + b) % m == (a + b) % m,
{
    vstd::arithmetic::div_mod::lemma_mod_bound(a, m);
    vstd::arithmetic::div_mod::lemma_small_mod((a % m) as nat, m as nat);
    vstd::arithmetic::div_mod::lemma_add_mod_noop(a % m, b, m);
    vstd::arithmetic::div_mod::lemma_add_mod_noop(a, b, m);
}

/// One write-read cycle of a pure delay keeps the state shape and returns
/// the expected output.
proof fn lemma_pure_step(d0: DelayV, xs: Seq<int>, dd: int, n: int, s: DelayV)
    requires
        pure_cfg(d0, dd),
        stream_inv(d0, xs, dd, n, s),
        0 <= n < xs.len(),
        forall|i: int| 0 <= i < xs.len() ==> in_rails(#[trigger] xs[i]),
    ensures
        stream_inv(d0, xs, dd, n + 1, dl_read(dl_write(s, xs[n]))),
        dl_read_out(dl_write(s, xs[n])) == expected_out(xs, dd, n),
{
    let len = d0.mem.len() as int;
    let a0 = d0.cur + n;
    let x = xs[n];
    let ws = tdiv(x, 4);
    lemma_quarter_bound(x);
    vstd::arithmetic::div_mod::lemma_mod_bound(a0, len);
    vstd::arithmetic::div_mod::lemma_small_mod(s.cur as nat, len as nat);
    assert((s.cur + 0) % len == s.cur);

    // The write scatters ws into the bin dd ahead and nothing next to it.
    assert(head_num(1, 0) == 1 && head_den(1) == 4);
    assert(x * 1 == x) by (nonlinear_arith);
    lemma_sat_id(ws);
    assert(0 <= dd * ONE as int <= SAT_LIMIT as int) by (nonlinear_arith)
        requires
            1 <= dd <= 0x10_0000,
    ;
    lemma_fx_mul_unit(dd * ONE as int);
    lemma_fx_mul_zero(0, mod_bias(s.osc.sin));
    lemma_sat_id(dd * ONE as int);
    let eff = eff_delay(s.delay, s.gscale, s.mod_depth, s.osc.sin);
    assert(eff == dd * ONE as int);
    vstd::arithmetic::div_mod::lemma_div_multiples_vanish(dd, ONE as int);
    assert(dd * ONE as int == ONE as int * dd) by (nonlinear_arith);
    assert(tdiv(eff, ONE as int) == dd);
    vstd::arithmetic::div_mod::lemma_mod_multiples_basic(dd, ONE as int);
    assert(eff % (ONE as int) == 0);
    lemma_fx_mul_unit(ws);
    lemma_fx_mul_zero(ws, 0);
    let i0 = (s.cur + dd) % len;
    let j0 = (s.cur + dd + 1) % len;
    vstd::arithmetic::div_mod::lemma_mod_bound(s.cur + dd, len);
    vstd::arithmetic::div_mod::lemma_mod_bound(s.cur + dd + 1, len);
    assert(s.mem[i0] == 0);
    lemma_sat_id(0 + ws);
    let m1 = s.mem.update(i0, sat(s.mem[i0] + fx_mul(ws, ONE as int - 0)));
    assert(m1[i0] == ws);
    assert(in_rails(m1[j0])) by {
        if dd + 1 < len {
            lemma_window_distinct(s.cur, dd, dd + 1, len);
            assert(m1[j0] == s.mem[(s.cur + (dd + 1)) % len]);
            assert(s.mem[(s.cur + (dd + 1)) % len] == 0);
        } else {
            assert(s.cur + dd + 1 == len * 1 + s.cur);
            vstd::arithmetic::div_mod::lemma_mod_multiples_vanish(1, s.cur, len);
            assert(j0 == s.cur % len);
            if i0 != j0 {
                assert(m1[j0] == s.mem[(s.cur + 0) % len]);
                if n >= dd {
                    lemma_quarter_bound(xs[n - dd]);
                }
            }
        }
    }
    lemma_sat_id(m1[j0] + fx_mul(ws, 0));
    assert(m1.update(j0, sat(m1[j0] + fx_mul(ws, 0))) =~= m1);
    let w = dl_write(s, x);
    assert(scatter(s.mem, s.cur, sat(tdiv(x * head_num(1, 0), head_den(1))), eff) == m1);
    assert(write_from(s.mem, x, s.delay, s, 0) == write_from(m1, -x, fx_mul(s.delay, s.psi), s, 1));
    assert(w.mem == m1);
    assert(w.cur == s.cur);

    // The read consumes the bin under the cursor: the contribution written
    // dd steps ago, or silence while nothing is old enough.
    lemma_window_distinct(s.cur, 0, dd, len);
    assert(i0 != s.cur);
    let raw = w.mem[s.cur];
    assert(raw == s.mem[(s.cur + 0) % len]);
    assert(raw == expected_out(xs, dd, n)) by {
        if n >= dd {
            assert(s.mem[(s.cur + 0) % len] == tdiv(xs[n - dd], 4));
        }
    }
    let p = expected_out(xs, dd, n - 1);
    assert(in_rails(p) && in_rails(raw)) by {
        if n - 1 >= dd {
            lemma_quarter_bound(xs[n - 1 - dd]);
        }
        if n >= dd {
            lemma_quarter_bound(xs[n - dd]);
        }
    }
    assert(-(SAT_LIMIT as int) <= raw - p <= SAT_LIMIT as int) by {
        if n - 1 >= dd {
            lemma_quarter_bound(xs[n - 1 - dd]);
        }
        if n >= dd {
            lemma_quarter_bound(xs[n - dd]);
        }
    }
    lemma_sat_id(raw - p);
    lemma_fx_mul_unit(raw - p);
    lemma_sat_id(p + (raw - p));
    assert(lp_step(s.lp, raw).prev_output == raw);
    lemma_fx_mul_unit(raw);
    assert(hp_step(s.hp, raw).prev_output == raw);
    let r = dl_read(w);
    assert(dl_read_out(w) == raw);

    // The new cursor and the shifted bins satisfy the shape at n + 1.
    lemma_mod_shift(a0, 1, len);
    assert(r.cur == (a0 + 1) % len);
    assert forall|k: int|
        0 <= k < len implies r.mem[#[trigger] ((r.cur + k) % len)] == (if dd - (n + 1) <= k < dd {
        tdiv(xs[(n + 1) + k - dd], 4)
    } else {
        0
    }) by {
        lemma_mod_shift(a0 + 1, k, len);
        lemma_mod_shift(a0, k + 1, len);
        let pos = (r.cur + k) % len;
        assert(pos == (s.cur + (k + 1)) % len);
        vstd::arithmetic::div_mod::lemma_mod_bound(s.cur + (k + 1), len);
        if k + 1 < len {
            lemma_window_distinct(s.cur, 0, k + 1, len);
            assert(pos != s.cur);
            assert(r.mem[pos] == m1[pos]);
            if k + 1 == dd {
                assert(pos == i0);
                assert(r.mem[pos] == ws);
            } else {
                if k + 1 < dd {
                    lemma_window_distinct(s.cur, k + 1, dd, len);
                } else {
                    lemma_window_distinct(s.cur, dd, k + 1, len);
                }
                assert(pos != i0);
                assert(r.mem[pos] == s.mem[(s.cur + (k + 1)) % len]);
            }
        } else {
            assert(k == len - 1);
            assert(s.cur + (k + 1) == len * 1 + s.cur);
            vstd::arithmetic::div_mod::lemma_mod_multiples_vanish(1, s.cur, len);
            assert(pos == s.cur % len);
            assert(r.mem[s.cur] == 0);
            assert(k >= dd);
        }
    }
    assert(stream_inv(d0, xs, dd, n + 1, r));
}


/// The invariant holds after any prefix of the stream, and every output so
/// far was the expected one.
proof fn lemma_stream_inv(d: DelayV, xs: Seq<int>, dd: int, n: int)
    requires
        d.wf(),
        pure_cfg(d, dd),
        filters_clear(d),
        forall|k: int| 0 <= k < d.mem.len() ==> d.mem[k] == 0,
        forall|i: int| 0 <= i < xs.len() ==> in_rails(#[trigger] xs[i]),
        0 <= n <= xs.len(),
    ensures
        stream_inv(d, xs, dd, n, stream(d, xs.take(n))),
        forall|m: int| 0 <= m < n ==> stream_out(d, xs, m) == expected_out(xs, dd, m),
    decreases n,
{
    let len = d.mem.len() as int;
    if n == 0 {
        assert(xs.take(0).len() == 0);
        assert(stream(d, xs.take(0)) == d);
        vstd::arithmetic::div_mod::lemma_small_mod(d.cur as nat, len as nat);
        assert forall|k: int| 0 <= k < len implies d.mem[#[trigger] ((d.cur + k) % len)] == (
        if dd - 0 <= k < dd {
            tdiv(xs[0 + k - dd], 4)
        } else {
            0
        }) by {
            vstd::arithmetic::div_mod::lemma_mod_bound(d.cur + k, len);
        }
    } else {
        lemma_stream_inv(d, xs, dd, n - 1);
        let s = stream(d, xs.take(n - 1));
        lemma_pure_step(d, xs, dd, n - 1, s);
        assert(xs.take(n).drop_last() =~= xs.take(n - 1));
        assert(xs.take(n).last() == xs[n - 1]);
        assert(stream(d, xs.take(n)) == dl_read(dl_write(s, xs[n - 1])));
        assert(stream_out(d, xs, n - 1) == expected_out(xs, dd, n - 1));
    }
}

/// The streaming pure-delay law. A single-head line with zero modulation,
/// unit global scale, identity tone filters and an integral delay of `dd`
/// samples, fed one sample per write-read cycle from silence, returns at
/// every step `n` exactly the input of step `n - dd` at the head's weight
/// 1/4 — and silence for the first `dd` steps, while no input is old
/// enough.
pub proof fn lemma_pure_delay_stream(d: DelayV, xs: Seq<int>, dd: int, n: int)
    requires
        d.wf(),
        filters_clear(d),
        d.heads == 1,
        d.mod_depth == 0,
        d.gscale == ONE as int,
        d.lp.alpha == ONE as int,
        d.hp.beta == ONE as int,
        1 <= dd <= d.mem.len() - 1,
        d.delay == dd * ONE as int,
        forall|k: int| 0 <= k < d.mem.len() ==> d.mem[k] == 0,
        forall|i: int| 0 <= i < xs.len() ==> in_rails(#[trigger] xs[i]),
        0 <= n < xs.len(),
    ensures
        n < dd ==> stream_out(d, xs, n) == 0,
        n >= dd ==> stream_out(d, xs, n) == tdiv(xs[n - dd], 4),
{
    lemma_stream_inv(d, xs, dd, n + 1);
}

} // verus!
