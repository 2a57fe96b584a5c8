//! Binary angles, `FULL_TURN` units to the circle, and integer
//! approximations of sine and cosine over them.
//!
//! The sine of the first half turn is Bhaskara's rational arch
//! `16 x (h - x) / (5 h^2 - 4 x (h - x))`, which is exact at the ends and
//! at the quarter turn; the second half turn mirrors it. The results are
//! factors in the fixed-point unit, the same on every machine.

use vstd::prelude::*;
use crate::fixed::ONE;
use crate::fixed::within;

verus! {

/// The whole circle.
pub const FULL_TURN: i64 = 65536;

/// Half of the circle: the angle that plays the part of pi.
pub const HALF_TURN: i64 = 32768;

/// A quarter of the circle.
pub const QUARTER_TURN: i64 = 16384;

/// The angle in `[0, FULL_TURN)` that points the same way as `angle`.
pub open spec fn normalized(angle: int) -> int {
    angle % (FULL_TURN as int)
}

/// Bhaskara's arch over the first half turn, `0 <= x <= HALF_TURN`.
pub open spec fn arch(x: int) -> int {
    let bow = x * (HALF_TURN - x);
    (16 * ONE * bow) / (5 * HALF_TURN * HALF_TURN - 4 * bow)
}

/// The sine of `angle` as a factor.
pub open spec fn sine(angle: int) -> int {
    let turned = normalized(angle);
    if turned <= HALF_TURN {
        arch(turned)
    } else {
        -arch(turned - HALF_TURN)
    }
}

/// The cosine of `angle` as a factor.
pub open spec fn cosine(angle: int) -> int {
    sine(angle + QUARTER_TURN)
}

/// Brings an angle into the first turn.
pub fn normalize(angle: i64) -> (turned: i64)
    ensures
        turned == normalized(angle as int),
        0 <= turned < FULL_TURN,
{
    let rest: i64 = angle % FULL_TURN;
    if rest < 0 {
        rest + FULL_TURN
    } else {
        rest
    }
}

/// The arch stays between zero and one.
pub proof fn lemma_arch_bounds(x: int)
    requires
        0 <= x <= HALF_TURN,
    ensures
        0 <= x * (HALF_TURN - x) <= 0x1000_0000,
        0 <= arch(x) <= ONE,
{
    let bow = x * (HALF_TURN - x);
    assert(0 <= bow <= 0x1000_0000) by (nonlinear_arith)
        requires
            0 <= x <= 32768,
            bow == x * (32768 - x),
    ;
    let top = 16 * ONE * bow;
    let bottom = 5 * HALF_TURN * HALF_TURN - 4 * bow;
    assert(top == 0x10_0000 * bow);
    assert(bottom == 0x1_4000_0000 - 4 * bow);
    assert(0 <= top / bottom <= ONE) by (nonlinear_arith)
        requires
            0 <= top <= ONE * bottom,
            bottom > 0,
    ;
}

/// Sine and cosine stay between minus one and one.
pub proof fn lemma_sine_bounds(angle: int)
    ensures
        within(sine(angle), ONE as int),
        within(cosine(angle), ONE as int),
{
    let turned = normalized(angle);
    if turned <= HALF_TURN {
        lemma_arch_bounds(turned);
    } else {
        lemma_arch_bounds(turned - HALF_TURN);
    }
    let ahead = normalized(angle + QUARTER_TURN);
    if ahead <= HALF_TURN {
        lemma_arch_bounds(ahead);
    } else {
        lemma_arch_bounds(ahead - HALF_TURN);
    }
}

/// Sine and cosine are exact at the quarter turns.
pub proof fn lemma_quarter_turns()
    ensures
        sine(0) == 0 && cosine(0) == ONE,
        sine(QUARTER_TURN as int) == ONE && cosine(QUARTER_TURN as int) == 0,
        sine(HALF_TURN as int) == 0 && cosine(HALF_TURN as int) == -ONE,
        sine(3 * QUARTER_TURN) == -ONE && cosine(3 * QUARTER_TURN) == 0,
{
    assert(arch(0) == 0) by {
        assert(0 * (HALF_TURN - 0) == 0);
    }
    assert(arch(HALF_TURN as int) == 0) by {
        assert(HALF_TURN * (HALF_TURN - HALF_TURN) == 0);
    }
    assert(arch(QUARTER_TURN as int) == ONE) by {
        assert(QUARTER_TURN * (HALF_TURN - QUARTER_TURN) == 0x1000_0000) by (nonlinear_arith)
            requires
                QUARTER_TURN == 16384,
                HALF_TURN == 32768,
        ;
        assert(16 * ONE * 0x1000_0000 == 0x1_0000_0000_0000);
        assert(5 * HALF_TURN * HALF_TURN - 4 * 0x1000_0000 == 0x1_0000_0000);
        assert(0x1_0000_0000_0000int / 0x1_0000_0000int == 0x1_0000);
    }
    assert(normalized(0) == 0);
    assert(normalized(QUARTER_TURN as int) == QUARTER_TURN);
    assert(normalized(HALF_TURN as int) == HALF_TURN);
    assert(normalized(3 * QUARTER_TURN) == 3 * QUARTER_TURN);
    assert(normalized(4 * QUARTER_TURN) == 0);
}

/// The arch is the same from either end.
proof fn lemma_arch_mirror(x: int)
    ensures
        arch(HALF_TURN - x) == arch(x),
{
    assert((HALF_TURN - x) * (HALF_TURN - (HALF_TURN - x)) == x * (HALF_TURN - x))
        by (nonlinear_arith);
}

/// Sine is odd, cosine is even, and sine is the same on either side of the
/// quarter turn: what is sprayed to one side of a facing mirrors what is
/// sprayed to the other.
pub proof fn lemma_sine_symmetry(angle: int)
    ensures
        sine(-angle) == -sine(angle),
        cosine(-angle) == cosine(angle),
        sine(HALF_TURN - angle) == sine(angle),
{
    let turned = normalized(angle);
    assert(arch(0) == 0 && arch(HALF_TURN as int) == 0) by {
        lemma_quarter_turns();
    }
    assert(normalized(-angle) == if turned == 0 { 0 } else { FULL_TURN - turned });
    if turned <= HALF_TURN {
        lemma_arch_mirror(turned);
    } else {
        lemma_arch_mirror(turned - HALF_TURN);
    }
    assert(normalized(HALF_TURN - angle) == if turned <= HALF_TURN {
        HALF_TURN - turned
    } else {
        3 * HALF_TURN - turned
    });
    let ahead = normalized(angle + QUARTER_TURN);
    assert(normalized(-angle + QUARTER_TURN) == if ahead <= HALF_TURN {
        HALF_TURN - ahead
    } else {
        3 * HALF_TURN - ahead
    });
    if ahead <= HALF_TURN {
        lemma_arch_mirror(ahead);
    } else {
        lemma_arch_mirror(ahead - HALF_TURN);
    }
}

/// Angles that differ by whole turns have the same sine and cosine.
pub proof fn lemma_sine_periodic(angle: int, other: int)
    requires
        normalized(angle) == normalized(other),
    ensures
        sine(angle) == sine(other),
        cosine(angle) == cosine(other),
{
    vstd::arithmetic::div_mod::lemma_add_mod_noop(angle, QUARTER_TURN as int, FULL_TURN as int);
    vstd::arithmetic::div_mod::lemma_add_mod_noop(other, QUARTER_TURN as int, FULL_TURN as int);
}

/// The arch at `x`.
fn arch_of(x: i64) -> (factor: i64)
    requires
        0 <= x <= HALF_TURN,
    ensures
        factor == arch(x as int),
        0 <= factor <= ONE,
{
    proof {
        lemma_arch_bounds(x as int);
    }
    let bow: i64 = x * (HALF_TURN - x);
    (16 * ONE * bow) / (5 * HALF_TURN * HALF_TURN - 4 * bow)
}

/// The sine of `angle` as a factor.
pub fn sin(angle: i64) -> (factor: i64)
    ensures
        factor == sine(angle as int),
        within(factor as int, ONE as int),
{
    let turned = normalize(angle);
    if turned <= HALF_TURN {
        arch_of(turned)
    } else {
        -arch_of(turned - HALF_TURN)
    }
}

/// The cosine of `angle` as a factor.
pub fn cos(angle: i64) -> (factor: i64)
    ensures
        factor == cosine(angle as int),
        within(factor as int, ONE as int),
{
    let turned = normalize(angle);
    proof {
        lemma_sine_periodic(turned as int, angle as int);
    }
    sin(turned + QUARTER_TURN)
}

} // verus!
