//! Angles in fixed-point radians.
//!
//! An angle is a scalar of micro-radians.  Stored headings are wrapped into
//! `[0, TAU_FX)`; the circle constants below are the crate's own quanta of
//! pi, chosen even so that quarter turns are exact.  Sine and cosine are
//! computed by Bhaskara's rational approximation, which is exact at every
//! multiple of a quarter turn and stays within one unit of magnitude.

use vstd::prelude::*;
use crate::fx::{tdiv, SCALE};

verus! {

/// Half turn in micro-radians (kept even so quarter turns divide exactly).
pub const PI_FX: i64 = 3_141_592;

/// Quarter turn in micro-radians.
pub const HALF_PI_FX: i64 = 1_570_796;

/// Eighth turn in micro-radians.
pub const QUARTER_PI_FX: i64 = 785_398;

/// Full turn in micro-radians.
pub const TAU_FX: i64 = 6_283_184;

/// Wrap an angle into `[0, TAU_FX)` (true modulus, never negative).
pub open spec fn wrap_s(a: int) -> int {
    a % (TAU_FX as int)
}

/// Every wrapped angle lies in `[0, TAU_FX)`, whatever the input.
pub proof fn lemma_wrap_in_range(a: int)
    ensures
        0 <= wrap_s(a) < TAU_FX,
{
    vstd::arithmetic::div_mod::lemma_mod_division_less_than_divisor(a, TAU_FX as int);
}

/// Wrap a wide angle sum into `[0, TAU_FX)`.
pub fn wrap_wide(a: i128) -> (r: i64)
    requires
        a >= -0x7fffffffffffffffffffffffffffffff,
    ensures
        r as int == wrap_s(a as int),
        0 <= r < TAU_FX,
{
    proof {
        lemma_wrap_in_range(a as int);
    }
    let t: u128 = TAU_FX as u128;
    if a >= 0 {
        let m: u128 = (a as u128) % t;
        m as i64
    } else {
        let m: u128 = ((-a) as u128) % t;
        proof {
            let q = (-(a as int)) / (t as int);
            vstd::arithmetic::div_mod::lemma_fundamental_div_mod(-(a as int), t as int);
            if m == 0 {
                vstd::arithmetic::div_mod::lemma_fundamental_div_mod_converse(
                    a as int, t as int, -q, 0);
            } else {
                vstd::arithmetic::div_mod::lemma_fundamental_div_mod_converse(
                    a as int, t as int, -q - 1, t as int - m as int);
            }
        }
        if m == 0 {
            0
        } else {
            TAU_FX - (m as i64)
        }
    }
}

/// Signed shortest-arc difference from `current` to `target`, in
/// `[-PI_FX, PI_FX)`.
pub open spec fn signed_diff_s(target: int, current: int) -> int {
    let d = wrap_s(target - current);
    if d >= PI_FX {
        d - TAU_FX
    } else {
        d
    }
}

/// Heading after turning from `current` toward `target` by the fraction
/// `s` of the shortest arc, where `s` is fixed-point in `[0, SCALE]`.
pub open spec fn turn_toward_s(current: int, target: int, s: int) -> int {
    wrap_s(current + tdiv(signed_diff_s(target, current) * s, SCALE as int))
}

/// Turn a heading toward a target heading along the shortest arc.
///
/// With `s == SCALE` the heading snaps to the target; with smaller `s` it
/// covers that fraction of the arc, so repeated ticks ease the turn in.
pub fn turn_toward(current: i64, target: i64, s: i64) -> (r: i64)
    requires
        0 <= s <= SCALE,
    ensures
        r as int == turn_toward_s(current as int, target as int, s as int),
        0 <= r < TAU_FX,
{
    let w = wrap_wide(target as i128 - current as i128);
    let diff = if w >= PI_FX {
        w - TAU_FX
    } else {
        w
    };
    let step = crate::fx::mul_div_trunc(diff, s as u64, SCALE as u64);
    wrap_wide(current as i128 + step as i128)
}

/// Bhaskara's sine approximation on the half turn `[0, PI_FX]`, scaled so
/// that one unit is `SCALE`.
pub open spec fn bhaskara_s(x: int) -> int {
    let t = x * (PI_FX - x);
    tdiv(16 * t * SCALE, 5 * PI_FX * PI_FX - 4 * t)
}

/// Sine of an angle in micro-radians, in fixed-point units.
pub open spec fn sin_s(a: int) -> int {
    let w = wrap_s(a);
    if w <= PI_FX {
        bhaskara_s(w)
    } else {
        -bhaskara_s(w - PI_FX)
    }
}

/// Cosine of an angle in micro-radians, in fixed-point units.
pub open spec fn cos_s(a: int) -> int {
    sin_s(a + HALF_PI_FX)
}

/// Bhaskara's approximation on `[0, PI_FX]`; never exceeds one unit.
fn bhaskara(x: i64) -> (r: i64)
    requires
        0 <= x <= PI_FX,
    ensures
        r as int == bhaskara_s(x as int),
        0 <= r <= SCALE,
{
    let d: u128 = (PI_FX - x) as u128;
    proof {
        assert((x as u128) as int * d as int <= 3_141_592 * 3_141_592) by (nonlinear_arith)
            requires
                0 <= (x as u128) as int <= 3_141_592,
                0 <= d as int <= 3_141_592,
        ;
    }
    let t: u128 = (x as u128) * d;
    proof {
        assert(t as int == x as int * (PI_FX - x) as int) by (nonlinear_arith)
            requires
                t as int == (x as u128) as int * d as int,
                d as int == (PI_FX - x) as int,
                0 <= x <= PI_FX,
        ;
        assert(4 * (x as int * (PI_FX - x) as int) <= PI_FX * PI_FX) by (nonlinear_arith)
            requires 0 <= x as int <= PI_FX as int,
        ;
        assert(t <= 0x7fffffffffffffff) by (nonlinear_arith)
            requires
                t as int == x as int * (PI_FX - x) as int,
                0 <= x <= PI_FX,
                PI_FX == 3_141_592,
        ;
    }
    let num: u128 = 16 * t * (SCALE as u128);
    let den: u128 = 5 * (PI_FX as u128) * (PI_FX as u128) - 4 * t;
    let q: u128 = num / den;
    proof {
        assert(num as int <= den as int * SCALE as int) by (nonlinear_arith)
            requires
                num as int == 16 * t as int * SCALE as int,
                den as int == 5 * (PI_FX as int) * (PI_FX as int) - 4 * t as int,
                4 * t as int <= (PI_FX as int) * (PI_FX as int),
                t as int >= 0,
                SCALE as int > 0,
        ;
        vstd::arithmetic::div_mod::lemma_div_is_ordered(
            num as int, den as int * SCALE as int, den as int);
        vstd::arithmetic::div_mod::lemma_div_multiples_vanish(SCALE as int, den as int);
        assert(den as int * SCALE as int == SCALE as int * den as int) by (nonlinear_arith);
        assert(q as int <= SCALE as int);
        assert(q as int == bhaskara_s(x as int));
    }
    q as i64
}

/// Sine of a wrapped angle; the two half turns use Bhaskara's arc with
/// opposite signs.
fn sin_wrapped(w: i64) -> (r: i64)
    requires
        0 <= w < TAU_FX,
    ensures
        r as int == if w <= PI_FX { bhaskara_s(w as int) } else { -bhaskara_s(w - PI_FX) },
        -SCALE <= r <= SCALE,
{
    if w <= PI_FX {
        bhaskara(w)
    } else {
        -bhaskara(w - PI_FX)
    }
}

/// Sine of any angle in micro-radians; the result is fixed-point in
/// `[-SCALE, SCALE]`.
pub fn sin_fx(a: i64) -> (r: i64)
    ensures
        r as int == sin_s(a as int),
        -SCALE <= r <= SCALE,
{
    let w = wrap_wide(a as i128);
    sin_wrapped(w)
}

/// Cosine of any angle in micro-radians; the result is fixed-point in
/// `[-SCALE, SCALE]`.
pub fn cos_fx(a: i64) -> (r: i64)
    ensures
        r as int == cos_s(a as int),
        -SCALE <= r <= SCALE,
{
    let w = wrap_wide(a as i128 + HALF_PI_FX as i128);
    sin_wrapped(w)
}

} // verus!
