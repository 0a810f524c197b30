//! Fixed-point arithmetic shared by the oscillator and the envelope.
//!
//! Amplitudes, envelope levels, waveform samples and the modulation index are
//! integers counted in millionths: [`UNIT`] stands for 1.0. Every function
//! here states its result as an exact integer formula, so the rounding that a
//! sample undergoes is part of its contract.

use vstd::prelude::*;
use vstd::arithmetic::div_mod::{
    lemma_div_is_ordered, lemma_div_multiples_vanish, lemma_fundamental_div_mod,
    lemma_fundamental_div_mod_converse,
};
use vstd::arithmetic::mul::lemma_mul_is_commutative;

verus! {

/// Full scale: the integer that stands for 1.0.
pub const UNIT: i64 = 1_000_000;

/// The quotient of `n` by a positive `d`, rounded toward zero.
pub open spec fn trunc_div(n: int, d: int) -> int {
    if n >= 0 {
        n / d
    } else {
        -((-n) / d)
    }
}

/// The product of two values in millionths, itself in millionths, rounded
/// toward zero: `a * b / UNIT`.
pub open spec fn scaled(a: int, b: int) -> int {
    trunc_div(a * b, UNIT as int)
}

/// A linear ramp from `from` to `to`, read at `clock` out of `span`, rounded
/// down: `from + (to - from) * clock / span`.
pub open spec fn ramp(from: int, to: int, clock: int, span: int) -> int {
    from + ((to - from) * clock) / span
}

/// The magnitude of a product never grows when one factor is at most `UNIT`
/// in magnitude and the product is divided by `UNIT`.
pub proof fn lemma_scaled_bounded(a: int, b: int)
    requires
        -UNIT <= a <= UNIT,
    ensures
        b >= 0 ==> -b <= scaled(a, b) <= b,
        b <= 0 ==> b <= scaled(a, b) <= -b,
{
    let u = UNIT as int;
    let m = if b >= 0 { b } else { -b };
    let p = a * b;
    let q = if p >= 0 { p } else { -p };
    assert(0 <= q <= m * u) by (nonlinear_arith)
        requires
            -u <= a <= u,
            p == a * b,
            q == if p >= 0 { p } else { -p },
            m == if b >= 0 { b } else { -b },
            u > 0,
    ;
}

/// The magnitude of a scaled product is at most the scaled product of the
/// factors' bounds.
pub proof fn lemma_scaled_limited(a: int, b: int, bound_a: int, bound_b: int)
    requires
        -bound_a <= a <= bound_a,
        -bound_b <= b <= bound_b,
    ensures
        -((bound_a * bound_b) / (UNIT as int)) <= scaled(a, b) <= (bound_a * bound_b) / (
        UNIT as int),
{
    let p = a * b;
    let q = if p >= 0 { p } else { -p };
    assert(0 <= q <= bound_a * bound_b) by (nonlinear_arith)
        requires
            -bound_a <= a <= bound_a,
            -bound_b <= b <= bound_b,
            p == a * b,
            q == if p >= 0 { p } else { -p },
    ;
}

/// At the end of its span a ramp stands exactly at its target, and at the
/// start exactly at its origin.
pub proof fn lemma_ramp_ends(from: int, to: int, span: int)
    requires
        span > 0,
    ensures
        ramp(from, to, 0, span) == from,
        ramp(from, to, span, span) == to,
{
    lemma_div_multiples_vanish(to - from, span);
    lemma_mul_is_commutative(to - from, span);
}

/// Within its span a ramp stays between its origin and its target.
pub proof fn lemma_ramp_between(from: int, to: int, clock: int, span: int)
    requires
        span > 0,
        0 <= clock <= span,
    ensures
        from <= to ==> from <= ramp(from, to, clock, span) <= to,
        to <= from ==> to <= ramp(from, to, clock, span) <= from,
{
    let d = to - from;
    lemma_ramp_ends(from, to, span);
    if d >= 0 {
        assert(d * 0 <= d * clock <= d * span) by (nonlinear_arith)
            requires
                d >= 0,
                0 <= clock <= span,
        ;
        lemma_div_is_ordered(d * clock, d * span, span);
    } else {
        assert(d * span <= d * clock <= d * 0) by (nonlinear_arith)
            requires
                d < 0,
                0 <= clock <= span,
        ;
        lemma_div_is_ordered(d * span, d * clock, span);
        lemma_div_is_ordered(d * clock, d * 0, span);
    }
}

/// A ramp moves monotonically toward its target as the clock advances.
pub proof fn lemma_ramp_monotonic(from: int, to: int, earlier: int, later: int, span: int)
    requires
        span > 0,
        earlier <= later,
    ensures
        from <= to ==> ramp(from, to, earlier, span) <= ramp(from, to, later, span),
        to <= from ==> ramp(from, to, later, span) <= ramp(from, to, earlier, span),
{
    let d = to - from;
    if d >= 0 {
        assert(d * earlier <= d * later) by (nonlinear_arith)
            requires
                d >= 0,
                earlier <= later,
        ;
        lemma_div_is_ordered(d * earlier, d * later, span);
    }
    if d <= 0 {
        assert(d * later <= d * earlier) by (nonlinear_arith)
            requires
                d <= 0,
                earlier <= later,
        ;
        lemma_div_is_ordered(d * later, d * earlier, span);
    }
}

/// The magnitude of a signed 64-bit value.
pub(crate) fn magnitude(a: i64) -> (r: u128)
    ensures
        r == if a >= 0 { a as int } else { -(a as int) },
{
    if a >= 0 {
        a as u128
    } else {
        (-(a as i128)) as u128
    }
}

/// Computes [`scaled`] on machine integers.
pub(crate) fn scale(a: i64, b: i64) -> (r: i128)
    ensures
        r == scaled(a as int, b as int),
{
    let ma = magnitude(a);
    let mb = magnitude(b);
    assert(ma * mb <= 0x4000_0000_0000_0000_0000_0000_0000_0000) by (nonlinear_arith)
        requires
            ma <= 0x8000_0000_0000_0000,
            mb <= 0x8000_0000_0000_0000,
    ;
    let product: u128 = ma * mb;
    let quotient: u128 = product / (UNIT as u128);
    let negative = (a < 0) != (b < 0);
    proof {
        let p = (a as int) * (b as int);
        assert(p == if negative { -(product as int) } else { product as int }) by (nonlinear_arith)
            requires
                product == ma * mb,
                ma == if a >= 0 { a as int } else { -(a as int) },
                mb == if b >= 0 { b as int } else { -(b as int) },
                negative == ((a < 0) != (b < 0)),
                p == (a as int) * (b as int),
        ;
    }
    if negative {
        -(quotient as i128)
    } else {
        quotient as i128
    }
}

/// Reduces `value` into `[0, cycle)` by Euclidean remainder.
pub(crate) fn wrap(value: i128, cycle: u64) -> (r: u64)
    requires
        cycle > 0,
        value > i128::MIN,
    ensures
        r == (value as int) % (cycle as int),
        r < cycle,
{
    if value >= 0 {
        ((value as u128) % (cycle as u128)) as u64
    } else {
        let back: u64 = (((-value) as u128) % (cycle as u128)) as u64;
        proof {
            let c = cycle as int;
            let v = value as int;
            lemma_fundamental_div_mod(-v, c);
            let q = (-v) / c;
            if back == 0 {
                assert(v == (-q) * c + 0) by (nonlinear_arith)
                    requires
                        -v == c * q + 0,
                ;
                lemma_fundamental_div_mod_converse(v, c, -q, 0);
            } else {
                assert(v == (-q - 1) * c + (c - back)) by (nonlinear_arith)
                    requires
                        -v == c * q + back,
                ;
                lemma_fundamental_div_mod_converse(v, c, -q - 1, c - back);
            }
        }
        if back == 0 {
            0
        } else {
            cycle - back
        }
    }
}

} // verus!
