use effect::fixed::ONE;
use effect::delay::DelayLine;
use effect::allpass::AllPass;
use effect::effect::{Effect, mix_sample};

fn pure_delay(size_log2: u32, delay_samples: i64, heads: u32, psi: i64) -> DelayLine {
    // Zero modulation depth, unit global scale, identity tone filters.
    DelayLine::with_coeffs(size_log2, delay_samples * ONE, psi, ONE, 0, heads, ONE, ONE, 0)
}

#[test]
fn single_head_integral_delay_is_pure_delay() {
    // One head, no modulation, delay 4: the write comes back 4 reads later,
    // scaled by the single head's weight 1/4; silence before it.
    let mut d = pure_delay(4, 4, 1, 32768);
    d.add_sample(40000);
    for _ in 0..4 {
        assert_eq!(d.get_sample(), 0);
    }
    assert_eq!(d.get_sample(), 10000);
    for _ in 0..10 {
        assert_eq!(d.get_sample(), 0);
    }
}

#[test]
fn single_head_streaming_delay() {
    // A stream of writes, each answered exactly 4 reads later at weight 1/4.
    let inputs: [i64; 8] = [40000, -20000, 65536, 4, 0, -65536, 12345, 400];
    let mut d = pure_delay(4, 4, 1, 32768);
    let mut outs: Vec<i64> = Vec::new();
    for x in inputs {
        d.add_sample(x);
        outs.push(d.get_sample());
    }
    for _ in 0..4 {
        d.add_sample(0);
        outs.push(d.get_sample());
    }
    for n in 0..12 {
        if n < 4 {
            assert_eq!(outs[n], 0);
        } else if n < inputs.len() + 4 {
            let x = inputs[n - 4];
            let expect = if x >= 0 { x / 4 } else { -((-x) / 4) };
            assert_eq!(outs[n], expect);
        }
    }
}

#[test]
fn wraparound_at_buffer_length_minus_one() {
    // Buffer of 8 bins, delay 7 = length - 1: the scattered bin wraps
    // around the buffer end and still comes back exactly 7 reads later.
    let mut d = pure_delay(3, 7, 1, 32768);
    d.add_sample(-400);
    for _ in 0..7 {
        assert_eq!(d.get_sample(), 0);
    }
    assert_eq!(d.get_sample(), -100);
}

#[test]
fn two_head_impulse_scenario() {
    // Two heads, zero modulation, base delay 4, ratio 1/2: an impulse of
    // 1.0 produces two sign-alternating echoes, 4/12 of the impulse at
    // delay 4 and -2/12 at delay 2, whose combined energy stays below the
    // impulse.
    let mut d = pure_delay(4, 4, 2, 32768);
    d.add_sample(65536);
    let mut outs: Vec<i64> = Vec::new();
    for _ in 0..8 {
        outs.push(d.get_sample());
    }
    assert_eq!(outs[0], 0);
    assert_eq!(outs[1], 0);
    assert_eq!(outs[2], -10922);
    assert_eq!(outs[3], 0);
    assert_eq!(outs[4], 21845);
    assert_eq!(outs[5], 0);
    assert!(outs[2].abs() + outs[4].abs() < 65536);
}

#[test]
fn delay_line_from_patch_units() {
    // 10 ms at 48 kHz is 480 samples; the tone coefficients come from the
    // one-pole mapping at 1 kHz and the oscillator step from 1 Hz.
    let d = DelayLine::new(10, 1000, 1000, 1000, 2, 48000, 10, 32768, ONE, 0);
    assert_eq!(d.delay, 480 * ONE);
    assert_eq!(d.mem.len(), 1024);
    assert_eq!(d.mask, 1023);
    assert_eq!(d.current, 0);
    assert_eq!(d.heads, 2);
    assert_eq!(d.lp.alpha, 7585);
    assert_eq!(d.hp.beta, 57950);
    assert_eq!(d.osc.dt, 22369);
    assert_eq!(d.osc.sin, 0);
}

#[test]
fn delay_line_silent_on_silence() {
    let mut d = DelayLine::with_coeffs(6, 20 * ONE, 40503, ONE, 2 * ONE, 3, 28835, 64276, 22369);
    for _ in 0..200 {
        d.add_sample(0);
        assert_eq!(d.get_sample(), 0);
    }
}

#[test]
fn allpass_zero_gain_reduces_to_delay_line() {
    let mut direct = pure_delay(4, 4, 2, 32768);
    let mut stage = AllPass::new(pure_delay(4, 4, 2, 32768), 0);
    let inputs: [i64; 10] = [65536, -30000, 12345, 0, 777, -777, 40000, 1, -1, 32768];
    for x in inputs {
        direct.add_sample(x);
        let want = direct.get_sample();
        assert_eq!(stage.add_sample(x), want);
    }
}

#[test]
fn allpass_feedback_changes_the_response() {
    let mut plain = AllPass::new(pure_delay(4, 2, 1, 32768), 0);
    let mut fed = AllPass::new(pure_delay(4, 2, 1, 32768), 32768);
    let mut saw_difference = false;
    for n in 0..12 {
        let x = if n == 0 { 65536 } else { 0 };
        if plain.add_sample(x) != fed.add_sample(x) {
            saw_difference = true;
        }
    }
    assert!(saw_difference);
}

#[test]
fn effect_silent_on_silence() {
    let mut e = Effect::new();
    for _ in 0..300 {
        let (l, r) = e.add_sample(0);
        assert_eq!(l, 0);
        assert_eq!(r, 0);
    }
}

#[test]
fn effect_impulse_arrives_after_the_shortest_head_delay() {
    let mut e = Effect::new();
    let (l0, r0) = e.add_sample(65536);
    assert_eq!(l0, 0);
    assert_eq!(r0, 0);
    for _ in 0..300 {
        let (l, r) = e.add_sample(0);
        assert_eq!(l, 0);
        assert_eq!(r, 0);
    }
    let mut heard = false;
    for _ in 0..4000 {
        let (l, r) = e.add_sample(0);
        if l != 0 || r != 0 {
            heard = true;
        }
    }
    assert!(heard);
}

#[test]
fn mix_blends_wet_and_dry() {
    assert_eq!(mix_sample(40000, -20000, ONE), 40000);
    assert_eq!(mix_sample(40000, -20000, 0), -20000);
    assert_eq!(mix_sample(40000, -20000, 32768), 20000 - 10000);
}
