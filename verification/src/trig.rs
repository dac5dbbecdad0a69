//! Angles and circle functions in fixed point.
//!
//! An angle is a fraction of one turn, carried in units of 1/[`TURN`] of a
//! full revolution; wrapping an angle is then an exact modulo. The sine is
//! the classical rational half-turn approximation, which stays within one
//! fixed-point unit, and a unit direction vector is clamped onto the closed
//! unit disk so that everything built from it stays within its radius.

use vstd::prelude::*;

verus! {

use vstd::arithmetic::div_mod::{lemma_div_is_ordered, lemma_div_multiples_vanish};
use crate::fixed::{FIXED_ONE, Vec2, clamp_vec, clamp_length_max, norm2};

/// Angle units in one full revolution.
pub const TURN: u64 = 1_000_000;

/// Angle units in half a revolution.
pub const HALF_TURN: u64 = 500_000;

/// Angle units in a quarter revolution.
pub const QUARTER_TURN: u64 = 250_000;

/// Sine over the first half turn, `0 <= x <= HALF_TURN`, scaled by
/// `FIXED_ONE`: the rational approximation `16 x (h - x) / (5 h^2 - 4 x (h - x))`.
pub open spec fn sin_half(x: int) -> int {
    (16 * x * (HALF_TURN - x) * FIXED_ONE) / (5 * HALF_TURN * HALF_TURN - 4 * x * (HALF_TURN - x))
}

/// Sine of an angle in `[0, TURN)`, scaled by `FIXED_ONE`.
pub open spec fn sin_unit(a: int) -> int {
    if a <= HALF_TURN {
        sin_half(a)
    } else {
        -sin_half(a - HALF_TURN)
    }
}

/// Cosine of an angle in `[0, TURN)`, scaled by `FIXED_ONE`.
pub open spec fn cos_unit(a: int) -> int {
    sin_unit((a + QUARTER_TURN) % (TURN as int))
}

/// The unit direction of angle `a`, pulled onto the closed unit disk.
pub open spec fn polar_unit_spec(a: int) -> (int, int) {
    clamp_vec(
        (Vec2 { x: sin_unit((a + QUARTER_TURN) % (TURN as int)) as i64, y: sin_unit(a) as i64 }),
        FIXED_ONE as int,
    )
}

/// The half-turn sine stays within one unit: `0 <= sin_half(x) <= FIXED_ONE`.
pub proof fn lemma_sin_half_bounds(x: int)
    requires
        0 <= x <= HALF_TURN,
    ensures
        0 <= sin_half(x) <= FIXED_ONE,
{
    let h = HALF_TURN as int;
    let q = x * (h - x);
    assert(0 <= q && 4 * q <= h * h) by (nonlinear_arith)
        requires 0 <= x <= h && q == x * (h - x);
    let den = 5 * h * h - 4 * q;
    let num = 16 * q * FIXED_ONE;
    assert(num >= 0 && num <= den * FIXED_ONE && den >= 4 * (h * h)) by (nonlinear_arith)
        requires
            num == 16 * q * FIXED_ONE,
            den == 5 * h * h - 4 * q,
            0 <= q,
            4 * q <= h * h,
            h == 500_000 && FIXED_ONE == 1000i64;
    assert(num / den >= 0) by (nonlinear_arith)
        requires num >= 0 && den > 0;
    lemma_div_is_ordered(num, den * FIXED_ONE, den);
    lemma_div_multiples_vanish(FIXED_ONE as int, den);
    assert(den * FIXED_ONE / den == FIXED_ONE);
    assert(16 * x * (h - x) * FIXED_ONE == num && 5 * h * h - 4 * x * (h - x) == den)
        by (nonlinear_arith)
        requires q == x * (h - x) && num == 16 * q * FIXED_ONE && den == 5 * h * h - 4 * q;
    assert(sin_half(x) == num / den);
}

/// The sine of any angle stays within one unit in magnitude.
pub proof fn lemma_sin_unit_bounds(a: int)
    requires
        0 <= a < TURN,
    ensures
        -FIXED_ONE <= sin_unit(a) <= FIXED_ONE,
{
    if a <= HALF_TURN {
        lemma_sin_half_bounds(a);
    } else {
        lemma_sin_half_bounds(a - HALF_TURN);
    }
}

/// Sine of `a`, scaled by `FIXED_ONE`.
pub fn sin_fixed(a: u64) -> (r: i64)
    requires
        a < TURN,
    ensures
        r == sin_unit(a as int),
        -FIXED_ONE <= r <= FIXED_ONE,
{
    proof {
        lemma_sin_unit_bounds(a as int);
    }
    if a <= HALF_TURN {
        sin_half_fixed(a)
    } else {
        -sin_half_fixed(a - HALF_TURN)
    }
}

fn sin_half_fixed(x: u64) -> (r: i64)
    requires
        x <= HALF_TURN,
    ensures
        r == sin_half(x as int),
        0 <= r <= FIXED_ONE,
{
    proof {
        lemma_sin_half_bounds(x as int);
        assert(x * (HALF_TURN - x) <= 250_000_000_000u64) by (nonlinear_arith)
            requires 0 <= x <= 500_000u64 && HALF_TURN == 500_000u64;
    }
    let q: u64 = x * (HALF_TURN - x);
    let num: u64 = 16 * q * (FIXED_ONE as u64);
    let den: u64 = 5 * HALF_TURN * HALF_TURN - 4 * q;
    proof {
        assert(4 * q <= 5 * HALF_TURN * HALF_TURN);
        assert(den > 0);
        assert(num == 16 * x * (HALF_TURN - x) * FIXED_ONE
            && den == 5 * HALF_TURN * HALF_TURN - 4 * x * (HALF_TURN - x))
            by (nonlinear_arith)
            requires
                q == x * (HALF_TURN - x),
                num == 16 * q * (FIXED_ONE as u64),
                den == 5 * HALF_TURN * HALF_TURN - 4 * q,
                HALF_TURN == 500_000u64 && FIXED_ONE == 1000i64;
        assert(sin_half(x as int) == num / den);
    }
    let r: u64 = num / den;
    r as i64
}

/// Cosine of `a`, scaled by `FIXED_ONE`.
pub fn cos_fixed(a: u64) -> (r: i64)
    requires
        a < TURN,
    ensures
        r == cos_unit(a as int),
        -FIXED_ONE <= r <= FIXED_ONE,
{
    let b: u64 = (a + QUARTER_TURN) % TURN;
    proof {
        lemma_sin_unit_bounds(b as int);
    }
    sin_fixed(b)
}

/// The point of the closed unit disk in direction `a`: the clamped pair
/// (cosine, sine), so its squared length never exceeds `FIXED_ONE^2`.
pub fn polar_unit(a: u64) -> (r: Vec2)
    requires
        a < TURN,
    ensures
        (r.x as int, r.y as int) == polar_unit_spec(a as int),
        norm2(r) <= FIXED_ONE * FIXED_ONE,
        -FIXED_ONE <= r.x <= FIXED_ONE,
        -FIXED_ONE <= r.y <= FIXED_ONE,
{
    let c: i64 = cos_fixed(a);
    let s: i64 = sin_fixed(a);
    let v = Vec2 { x: c, y: s };
    let r = clamp_length_max(v, FIXED_ONE);
    proof {
        assert(r.x * r.x >= 0 && r.y * r.y >= 0) by (nonlinear_arith);
        assert(-FIXED_ONE <= r.x <= FIXED_ONE && -FIXED_ONE <= r.y <= FIXED_ONE)
            by (nonlinear_arith)
            requires
                r.x * r.x + r.y * r.y <= FIXED_ONE * FIXED_ONE,
                r.x * r.x >= 0,
                r.y * r.y >= 0,
                FIXED_ONE == 1000i64;
    }
    r
}

/// Advances an angle by `inc`, wrapping at a full turn.
pub fn step_angle(a: u64, inc: u64) -> (r: u64)
    requires
        a < TURN,
        inc <= TURN,
    ensures
        r == (a + inc) % (TURN as int),
        r < TURN,
{
    (a + inc) % TURN
}

} // verus!
