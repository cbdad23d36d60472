use effect::fixed::{qadd, qsub, qmul, qdiv, qscale, isqrt64, ONE, SAT_LIMIT};
use effect::osc::{Osc, OSC_ONE};
use effect::filter::{LpFilter, HpFilter};
use effect::convert::{sample_to_q16, q16_to_sample};
use effect::svf::Svf;

#[test]
fn qmul_exact_and_saturating() {
    assert_eq!(qmul(65536, 65536), 65536);
    assert_eq!(qmul(65536, 32768), 32768);
    assert_eq!(qmul(-65536, 32768), -32768);
    assert_eq!(qmul(100, 3), 0);
    assert_eq!(qmul(-100, 3), 0);
    assert_eq!(qmul(SAT_LIMIT, 4 * ONE), SAT_LIMIT);
    assert_eq!(qmul(-SAT_LIMIT, 4 * ONE), -SAT_LIMIT);
}

#[test]
fn qadd_qsub_exact_and_saturating() {
    assert_eq!(qadd(1, 2), 3);
    assert_eq!(qadd(SAT_LIMIT, SAT_LIMIT), SAT_LIMIT);
    assert_eq!(qsub(-SAT_LIMIT, SAT_LIMIT), -SAT_LIMIT);
    assert_eq!(qsub(5, 9), -4);
}

#[test]
fn qdiv_and_qscale_exact() {
    assert_eq!(qdiv(2 * ONE, 32768), 4 * ONE);
    assert_eq!(qdiv(ONE, 3 * ONE), 21845);
    assert_eq!(qscale(65536, 4, 12), 21845);
    assert_eq!(qscale(-131072, 2, 12), -21845);
}

#[test]
fn isqrt_exact() {
    assert_eq!(isqrt64(0), 0);
    assert_eq!(isqrt64(1), 1);
    assert_eq!(isqrt64(3), 1);
    assert_eq!(isqrt64(4), 2);
    assert_eq!(isqrt64(0x1_0000_0000), 0x1_0000);
    assert_eq!(isqrt64(0xFFFF_FFFF), 0xFFFF);
}

#[test]
fn oscillator_first_step() {
    let mut o = Osc::new(1000, 48000);
    assert_eq!(o.sin, 0);
    assert_eq!(o.cos, OSC_ONE);
    assert_eq!(o.dt, 22369);
    o.inc();
    assert_eq!(o.sin, 22369);
    assert_eq!(o.cos, OSC_ONE);
    assert_eq!(o.sin_q16(), 1);
}

#[test]
fn oscillator_stays_in_range() {
    let mut o = Osc::new(48000000, 48000);
    for _ in 0..100000 {
        o.inc();
        assert!(o.sin.abs() <= 2 * OSC_ONE);
        assert!(o.cos.abs() <= 2 * OSC_ONE);
    }
}

#[test]
fn lp_coefficient_from_hertz() {
    let f = LpFilter::new(1000, 48000);
    assert_eq!(f.alpha, 7585);
    assert_eq!(f.prev_output, 0);
}

#[test]
fn hp_coefficient_from_hertz() {
    let f = HpFilter::new(1000, 48000);
    assert_eq!(f.beta, 57950);
    assert_eq!(f.prev_sample, 0);
    assert_eq!(f.prev_output, 0);
}

#[test]
fn lp_monotone_convergence_to_constant() {
    let mut f = LpFilter::with_alpha(32768);
    assert_eq!(f.add_sample(65536), 32768);
    assert_eq!(f.add_sample(65536), 49152);
    assert_eq!(f.add_sample(65536), 57344);
    let mut prev = 57344;
    for _ in 0..200 {
        let y = f.add_sample(65536);
        assert!(prev <= y && y <= 65536);
        prev = y;
    }
}

#[test]
fn lp_makes_strict_progress_until_one_quantum_away() {
    let mut f = LpFilter::with_alpha(1);
    let mut prev = 0;
    for _ in 0..50 {
        let y = f.add_sample(10 * 65536);
        assert!(y > prev);
        prev = y;
    }
}

#[test]
fn hp_decay_on_constant_input() {
    let mut f = HpFilter::with_beta(32768);
    assert_eq!(f.add_sample(1000), 500);
    assert_eq!(f.add_sample(1000), 250);
    assert_eq!(f.add_sample(1000), 125);
    let mut prev = 125;
    for _ in 0..200 {
        let y = f.add_sample(1000);
        assert!(0 <= y && y <= prev);
        prev = y;
    }
}

#[test]
fn filters_silent_on_silence() {
    let mut lp = LpFilter::new(500, 48000);
    let mut hp = HpFilter::new(200, 48000);
    for _ in 0..100 {
        assert_eq!(lp.add_sample(0), 0);
        assert_eq!(hp.add_sample(0), 0);
    }
}

#[test]
fn conversions_exact() {
    assert_eq!(sample_to_q16(32767), 65536);
    assert_eq!(sample_to_q16(1), 2);
    assert_eq!(sample_to_q16(0), 0);
    assert_eq!(sample_to_q16(-32768), -65538);
    assert_eq!(q16_to_sample(65536), 32767);
    assert_eq!(q16_to_sample(-65536), -32767);
    assert_eq!(q16_to_sample(2), 0);
    assert_eq!(q16_to_sample(100 * ONE), 32767);
    assert_eq!(q16_to_sample(-100 * ONE), -32768);
}

#[test]
fn svf_coefficients() {
    let s = Svf::new(48000, 1000 * ONE, 32768);
    assert_eq!(s.fc, 1000 * ONE);
    assert_eq!(s.res, 32768);
    assert_eq!(s.freq, 4284);
    assert_eq!(s.damp, 20856);
    assert_eq!(s.drive, 0);
}

#[test]
fn svf_clamps_out_of_range_configuration() {
    let s = Svf::new(48000, -5 * ONE, 3 * ONE);
    assert_eq!(s.fc, 1);
    assert_eq!(s.res, ONE);
    let s2 = Svf::new(48000, 1_000_000 * ONE, -7);
    assert_eq!(s2.fc, 24000 * ONE - ONE);
    assert_eq!(s2.res, 0);
}

#[test]
fn svf_impulse_response_first_call() {
    let mut s = Svf::new(48000, 1000 * ONE, 32768);
    s.process(ONE);
    assert_eq!(s.notch, 64173);
    assert_eq!(s.low, 280);
    assert_eq!(s.high, 63893);
    assert_eq!(s.band, 8460);
    assert_eq!(s.outlow, 140);
    assert_eq!(s.outhigh, 64714);
    assert_eq!(s.outband, 6372);
    assert_eq!(s.outpeak, -64574);
    assert_eq!(s.outnotch, 64854);
}

#[test]
fn svf_silent_on_silence() {
    let mut s = Svf::new(48000, 2000 * ONE, 50000);
    for _ in 0..100 {
        s.process(0);
        assert_eq!(s.outlow, 0);
        assert_eq!(s.outhigh, 0);
        assert_eq!(s.outband, 0);
        assert_eq!(s.outpeak, 0);
        assert_eq!(s.outnotch, 0);
    }
}

#[test]
fn svf_stays_bounded_across_sweeps() {
    // Resonance swept across [0, 1], cutoff swept across (0, sample_rate/2):
    // 10000 impulse-driven samples never blow up.
    let bound: i64 = 1 << 40;
    for res in [0i64, 16384, 32768, 49152, 65536] {
        for fc in [1i64, 100 * ONE, 1000 * ONE, 10000 * ONE, 23999 * ONE] {
            let mut s = Svf::new(48000, fc, res);
            for n in 0..10000 {
                let input = if n % 1000 == 0 { ONE } else { 0 };
                s.process(input);
                assert!(s.outlow.abs() < bound);
                assert!(s.outhigh.abs() < bound);
                assert!(s.outband.abs() < bound);
                assert!(s.outpeak.abs() < bound);
                assert!(s.outnotch.abs() < bound);
            }
        }
    }
}
