//! Saturating Q16 fixed-point arithmetic.
//!
//! A signal value is an `i64` holding `v * 65536` for the real value `v`.
//! Products are computed in `i128` and divided by [`ONE`] with truncation
//! toward zero; every result is clamped to `[-SAT_LIMIT, SAT_LIMIT]`.
//! Within the rails the operations agree with exact truncated rational
//! arithmetic, which is what the contracts of the filter primitives state.

use vstd::prelude::*;

verus! {

/// The fixed-point representation of 1.0.
pub const ONE: i64 = 65536;

/// Saturation rail: every arithmetic helper clamps its result to
/// `[-SAT_LIMIT, SAT_LIMIT]`. The rail is about 2^44 times the nominal
/// full-scale signal, so it is never reached by sane audio data; it only
/// makes the arithmetic total.
pub const SAT_LIMIT: i64 = 0x1000_0000_0000_0000;

/// Truncating (toward zero) integer division, the semantics of Rust's `/`.
pub open spec fn tdiv(a: int, b: int) -> int {
    if a >= 0 {
        a / b
    } else {
        -((-a) / b)
    }
}

/// Clamp to the saturation rails.
pub open spec fn sat(v: int) -> int {
    if v > SAT_LIMIT as int {
        SAT_LIMIT as int
    } else if v < -(SAT_LIMIT as int) {
        -(SAT_LIMIT as int)
    } else {
        v
    }
}

/// Saturating fixed-point product: `x * c` scaled back down by `ONE`.
pub open spec fn fx_mul(x: int, c: int) -> int {
    sat(tdiv(x * c, ONE as int))
}

/// Saturating fixed-point quotient: `x / d` scaled up by `ONE`.
pub open spec fn fx_div(x: int, d: int) -> int {
    sat(tdiv(x * (ONE as int), d))
}

/// Whether a value lies within the saturation rails.
pub open spec fn in_rails(v: int) -> bool {
    -(SAT_LIMIT as int) <= v <= SAT_LIMIT as int
}

/// Saturating addition.
pub fn qadd(a: i64, b: i64) -> (r: i64)
    ensures
        r == sat(a + b),
{
    let s: i128 = a as i128 + b as i128;
    if s > SAT_LIMIT as i128 {
        SAT_LIMIT
    } else if s < -(SAT_LIMIT as i128) {
        -SAT_LIMIT
    } else {
        s as i64
    }
}

/// Saturating subtraction.
pub fn qsub(a: i64, b: i64) -> (r: i64)
    ensures
        r == sat(a - b),
{
    let s: i128 = a as i128 - b as i128;
    if s > SAT_LIMIT as i128 {
        SAT_LIMIT
    } else if s < -(SAT_LIMIT as i128) {
        -SAT_LIMIT
    } else {
        s as i64
    }
}

/// Saturating Q16 multiplication.
pub fn qmul(x: i64, c: i64) -> (r: i64)
    ensures
        r == fx_mul(x as int, c as int),
{
    proof {
        assert(x as int * c as int <= 0x8000_0000_0000_0000 * 0x8000_0000_0000_0000
            && -(0x8000_0000_0000_0000 * 0x8000_0000_0000_0000) <= x as int * c as int)
            by (nonlinear_arith)
            requires
                -0x8000_0000_0000_0000 <= x as int <= 0x7FFF_FFFF_FFFF_FFFF,
                -0x8000_0000_0000_0000 <= c as int <= 0x7FFF_FFFF_FFFF_FFFF,
        ;
    }
    let p: i128 = (x as i128) * (c as i128);
    let q: i128 = p / (ONE as i128);
    assert(q == tdiv(x as int * c as int, ONE as int));
    if q > SAT_LIMIT as i128 {
        SAT_LIMIT
    } else if q < -(SAT_LIMIT as i128) {
        -SAT_LIMIT
    } else {
        q as i64
    }
}

/// Saturating scaling by an arbitrary rational `n / d`.
pub fn qscale(x: i64, n: i64, d: i64) -> (r: i64)
    requires
        d >= 1,
    ensures
        r == sat(tdiv(x as int * n as int, d as int)),
{
    proof {
        assert(x as int * n as int <= 0x8000_0000_0000_0000 * 0x8000_0000_0000_0000
            && -(0x8000_0000_0000_0000 * 0x8000_0000_0000_0000) <= x as int * n as int)
            by (nonlinear_arith)
            requires
                -0x8000_0000_0000_0000 <= x as int <= 0x7FFF_FFFF_FFFF_FFFF,
                -0x8000_0000_0000_0000 <= n as int <= 0x7FFF_FFFF_FFFF_FFFF,
        ;
    }
    let p: i128 = (x as i128) * (n as i128);
    let q: i128 = p / (d as i128);
    assert(q == tdiv(x as int * n as int, d as int));
    if q > SAT_LIMIT as i128 {
        SAT_LIMIT
    } else if q < -(SAT_LIMIT as i128) {
        -SAT_LIMIT
    } else {
        q as i64
    }
}

/// Saturating Q16 division. The divisor must be positive.
pub fn qdiv(x: i64, d: i64) -> (r: i64)
    requires
        d >= 1,
    ensures
        r == fx_div(x as int, d as int),
{
    proof {
        assert(x as int * ONE as int <= 0x8000_0000_0000_0000 * 0x10000
            && -(0x8000_0000_0000_0000 * 0x10000) <= x as int * ONE as int)
            by (nonlinear_arith)
            requires
                -0x8000_0000_0000_0000 <= x as int <= 0x7FFF_FFFF_FFFF_FFFF,
        ;
    }
    let p: i128 = (x as i128) * (ONE as i128);
    let q: i128 = p / (d as i128);
    assert(q == tdiv(x as int * ONE as int, d as int));
    if q > SAT_LIMIT as i128 {
        SAT_LIMIT
    } else if q < -(SAT_LIMIT as i128) {
        -SAT_LIMIT
    } else {
        q as i64
    }
}

/// The integer square root: the unique `r` with `r * r <= x` and
/// `(r + 1) * (r + 1) > x`.
pub open spec fn sqrt_floor(x: int) -> int {
    choose|r: int| 0 <= r && #[trigger] (r * r) <= x && (r + 1) * (r + 1) > x
}

/// A witness satisfying the square-root characterization is the value of
/// [`sqrt_floor`].
pub proof fn lemma_sqrt_floor_is(x: int, r: int)
    requires
        0 <= r,
        r * r <= x,
        (r + 1) * (r + 1) > x,
    ensures
        sqrt_floor(x) == r,
{
    assert(0 <= r && #[trigger] (r * r) <= x && (r + 1) * (r + 1) > x);
    let q = choose|q: int| 0 <= q && #[trigger] (q * q) <= x && (q + 1) * (q + 1) > x;
    if q < r {
        assert((q + 1) * (q + 1) <= r * r) by (nonlinear_arith)
            requires
                0 <= q,
                q + 1 <= r,
        ;
    }
    if r < q {
        assert((r + 1) * (r + 1) <= q * q) by (nonlinear_arith)
            requires
                0 <= r,
                r + 1 <= q,
        ;
    }
}

/// Binary-search integer square root.
pub fn isqrt64(x: u64) -> (r: u64)
    ensures
        r as int == sqrt_floor(x as int),
        r * r <= x,
        (r + 1) * (r + 1) > x,
        r <= 0xFFFF_FFFF,
{
    let mut lo: u64 = 0;
    let mut hi: u64 = 0x1_0000_0000;
    proof {
        assert(0x1_0000_0000 * 0x1_0000_0000 > x as int) by (nonlinear_arith)
            requires
                x as int <= 0xFFFF_FFFF_FFFF_FFFF,
        ;
    }
    while lo + 1 < hi
        invariant
            lo < hi <= 0x1_0000_0000,
            lo * lo <= x,
            hi * hi > x,
        decreases hi - lo,
    {
        let mid = lo + (hi - lo) / 2;
        proof {
            assert(mid as int * mid as int <= 0x1_0000_0000 * 0x1_0000_0000)
                by (nonlinear_arith)
                requires
                    0 <= mid as int <= 0x1_0000_0000,
            ;
        }
        let sq: u128 = (mid as u128) * (mid as u128);
        if sq <= x as u128 {
            lo = mid;
        } else {
            hi = mid;
        }
    }
    proof {
        lemma_sqrt_floor_is(x as int, lo as int);
    }
    lo
}

/// Truncating division by a positive divisor never grows a value's
/// magnitude and never flips its sign.
pub proof fn lemma_tdiv_range(a: int, b: int)
    requires
        b >= 1,
    ensures
        a >= 0 ==> 0 <= tdiv(a, b) <= a,
        a <= 0 ==> a <= tdiv(a, b) <= 0,
{
    if a >= 0 {
        vstd::arithmetic::div_mod::lemma_div_pos_is_pos(a, b);
        vstd::arithmetic::div_mod::lemma_div_nonincreasing(a, b);
    } else {
        vstd::arithmetic::div_mod::lemma_div_pos_is_pos(-a, b);
        vstd::arithmetic::div_mod::lemma_div_nonincreasing(-a, b);
    }
}

/// Scaling by a coefficient `c` with `0 <= c <= s` (a fraction of at most
/// one) keeps a value between zero and itself.
pub proof fn lemma_scale_frac(x: int, c: int, s: int)
    requires
        s >= 1,
        0 <= c <= s,
    ensures
        x >= 0 ==> 0 <= tdiv(x * c, s) <= x,
        x <= 0 ==> x <= tdiv(x * c, s) <= 0,
{
    if x >= 0 {
        vstd::arithmetic::mul::lemma_mul_nonnegative(x, c);
        lemma_tdiv_range(x * c, s);
        assert(x * c <= x * s) by (nonlinear_arith)
            requires
                x >= 0,
                c <= s,
        ;
        vstd::arithmetic::div_mod::lemma_div_is_ordered(x * c, x * s, s);
        vstd::arithmetic::div_mod::lemma_div_multiples_vanish(x, s);
        assert(x * s == s * x) by (nonlinear_arith);
    } else {
        vstd::arithmetic::mul::lemma_mul_nonnegative(-x, c);
        assert(-x * c == -(x * c)) by (nonlinear_arith);
        lemma_tdiv_range(x * c, s);
        assert(-x * c <= -x * s) by (nonlinear_arith)
            requires
                -x >= 0,
                c <= s,
        ;
        vstd::arithmetic::div_mod::lemma_div_is_ordered(-x * c, -x * s, s);
        vstd::arithmetic::div_mod::lemma_div_multiples_vanish(-x, s);
        assert(-x * s == s * -x) by (nonlinear_arith);
    }
}

/// Scaling by a nonnegative coefficient is monotone in the value scaled.
pub proof fn lemma_scale_mono(x1: int, x2: int, c: int, s: int)
    requires
        s >= 1,
        c >= 0,
        x1 <= x2,
    ensures
        tdiv(x1 * c, s) <= tdiv(x2 * c, s),
{
    assert(x1 * c <= x2 * c) by (nonlinear_arith)
        requires
            x1 <= x2,
            c >= 0,
    ;
    let a = x1 * c;
    let b = x2 * c;
    if a >= 0 {
        vstd::arithmetic::div_mod::lemma_div_is_ordered(a, b, s);
    } else if b <= 0 {
        vstd::arithmetic::div_mod::lemma_div_is_ordered(-b, -a, s);
    } else {
        vstd::arithmetic::div_mod::lemma_div_pos_is_pos(-a, s);
        vstd::arithmetic::div_mod::lemma_div_pos_is_pos(b, s);
    }
}

/// Within the rails, saturation is the identity.
pub proof fn lemma_sat_id(v: int)
    requires
        in_rails(v),
    ensures
        sat(v) == v,
{
}

/// A full-scale coefficient (`ONE`) scales a value to itself.
pub proof fn lemma_fx_mul_unit(x: int)
    requires
        in_rails(x),
    ensures
        fx_mul(x, ONE as int) == x,
{
    if x >= 0 {
        vstd::arithmetic::div_mod::lemma_div_multiples_vanish(x, ONE as int);
        assert(x * (ONE as int) == (ONE as int) * x) by (nonlinear_arith);
    } else {
        vstd::arithmetic::div_mod::lemma_div_multiples_vanish(-x, ONE as int);
        assert(-(x * (ONE as int)) == (ONE as int) * -x) by (nonlinear_arith);
    }
}

/// A zero value or a zero coefficient scales to zero.
pub proof fn lemma_fx_mul_zero(x: int, c: int)
    ensures
        fx_mul(x, 0) == 0,
        fx_mul(0, c) == 0,
{
    assert(x * 0 == 0) by (nonlinear_arith);
    assert(0 * c == 0) by (nonlinear_arith);
    vstd::arithmetic::div_mod::lemma_div_of0(ONE as int);
}

/// The workhorse bound: a coefficient in `[0, ONE]` keeps a fixed-point
/// product between zero and the value scaled.
pub proof fn lemma_fx_mul_frac(x: int, c: int)
    requires
        0 <= c <= ONE as int,
    ensures
        x >= 0 ==> 0 <= fx_mul(x, c) <= x,
        x <= 0 ==> x <= fx_mul(x, c) <= 0,
{
    lemma_scale_frac(x, c, ONE as int);
}

} // verus!
