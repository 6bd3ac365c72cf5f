//! Fixed-point scalar arithmetic.
//!
//! A scalar is an `i64` counting micro-units: `SCALE` raw ticks make one
//! unit.  Stored quantities are kept inside `[-LIM, LIM]`; the arithmetic
//! here saturates at those bounds, so every operation is total and no tick
//! can overflow, whatever the host feeds in.

use vstd::prelude::*;

verus! {

/// Raw ticks per unit: one world unit, radian or second is `SCALE` raw.
pub const SCALE: i64 = 1_000_000;

/// Saturation bound for stored scalars: one billion units in raw ticks.
pub const LIM: i64 = 1_000_000_000_000_000;

/// Truncating (round-toward-zero) division by a positive divisor; the
/// rounding used by all scalar products and scalings in this crate.
pub open spec fn tdiv(a: int, d: int) -> int {
    if a >= 0 {
        a / d
    } else {
        -((-a) / d)
    }
}

/// Product of two fixed-point scalars, before saturation.
pub open spec fn tmul(a: int, b: int) -> int {
    tdiv(a * b, SCALE as int)
}

/// Saturation into `[-LIM, LIM]`.
pub open spec fn sat_s(a: int) -> int {
    if a > LIM {
        LIM as int
    } else if a < -(LIM as int) {
        -(LIM as int)
    } else {
        a
    }
}

/// Clamp into `[lo, hi]`.
pub open spec fn clamp_s(x: int, lo: int, hi: int) -> int {
    if x < lo {
        lo
    } else if x > hi {
        hi
    } else {
        x
    }
}

/// Magnitude of an `i64` as a `u128`.
fn abs128(a: i64) -> (r: u128)
    ensures
        r as int == if a >= 0 { a as int } else { -(a as int) },
{
    if a >= 0 {
        a as u128
    } else {
        (-(a as i128)) as u128
    }
}

/// Saturate a wide intermediate back into a stored scalar.
pub fn sat64(a: i128) -> (r: i64)
    ensures
        r as int == sat_s(a as int),
{
    if a > LIM as i128 {
        LIM
    } else if a < -(LIM as i128) {
        -LIM
    } else {
        a as i64
    }
}

/// Saturating sum of two scalars.
pub fn fx_add(a: i64, b: i64) -> (r: i64)
    ensures
        r as int == sat_s(a + b),
{
    sat64(a as i128 + b as i128)
}

/// Saturating difference of two scalars.
pub fn fx_sub(a: i64, b: i64) -> (r: i64)
    ensures
        r as int == sat_s(a - b),
{
    sat64(a as i128 - b as i128)
}

/// Exact fixed-point product on a wide intermediate: `a * b` in units,
/// truncated toward zero, not yet saturated.
pub fn tmul_wide(a: i64, b: i64) -> (r: i128)
    ensures
        r as int == tmul(a as int, b as int),
        -0x40000000000000000000000000000000 <= r as int <= 0x40000000000000000000000000000000,
{
    let ma = abs128(a);
    let mb = abs128(b);
    proof {
        assert(ma as int * mb as int <= 0x8000000000000000 * 0x8000000000000000)
            by (nonlinear_arith)
            requires
                0 <= ma as int <= 0x8000000000000000,
                0 <= mb as int <= 0x8000000000000000,
        ;
    }
    let p: u128 = ma * mb;
    let q: u128 = p / (SCALE as u128);
    let neg = (a < 0) != (b < 0);
    proof {
        let ab = a as int * b as int;
        assert(p as int == if ab >= 0 { ab } else { -ab }) by (nonlinear_arith)
            requires
                ma as int == if a >= 0 { a as int } else { -(a as int) },
                mb as int == if b >= 0 { b as int } else { -(b as int) },
                p as int == ma as int * mb as int,
                ab == a as int * b as int,
        ;
        assert(((a < 0) != (b < 0)) ==> ab <= 0) by (nonlinear_arith)
            requires ab == a as int * b as int,
        ;
        assert(!((a < 0) != (b < 0)) ==> ab >= 0) by (nonlinear_arith)
            requires ab == a as int * b as int,
        ;
        assert(q as int == p as int / (SCALE as int));
        assert(p as int / (SCALE as int) <= p as int) by (nonlinear_arith)
            requires p as int >= 0,
        ;
    }
    let qi: i128 = if neg {
        -(q as i128)
    } else {
        q as i128
    };
    proof {
        let ab = a as int * b as int;
        if ab == 0 {
            assert(p == 0);
            assert(q as int == 0int / (SCALE as int));
            assert(qi as int == 0);
            assert(tdiv(ab, SCALE as int) == 0);
        }
        assert(qi as int == tdiv(ab, SCALE as int));
    }
    qi
}

/// Saturating fixed-point product: `a * b` in units, truncated toward zero.
pub fn fx_mul(a: i64, b: i64) -> (r: i64)
    ensures
        r as int == sat_s(tmul(a as int, b as int)),
{
    sat64(tmul_wide(a, b))
}

/// Exact product of two scalars on a wide intermediate.
pub fn mul_i128(a: i64, b: i64) -> (r: i128)
    ensures
        r as int == a as int * b as int,
{
    proof {
        assert(-0x8000000000000000 * 0x8000000000000000
            <= a as int * b as int
            <= 0x8000000000000000 * 0x8000000000000000) by (nonlinear_arith)
            requires
                -0x8000000000000000 <= a as int <= 0x7fffffffffffffff,
                -0x8000000000000000 <= b as int <= 0x7fffffffffffffff,
        ;
    }
    (a as i128) * (b as i128)
}

/// Truncating division of a wide intermediate by `SCALE`.
pub fn tdiv_scale_wide(p: i128) -> (r: i128)
    requires
        p >= -0x7fffffffffffffffffffffffffffffff,
    ensures
        r as int == tdiv(p as int, SCALE as int),
{
    if p >= 0 {
        ((p as u128) / (SCALE as u128)) as i128
    } else {
        let q: u128 = ((-p) as u128) / (SCALE as u128);
        proof {
            vstd::arithmetic::div_mod::lemma_div_nonincreasing(-(p as int), SCALE as int);
        }
        -(q as i128)
    }
}

/// Truncating division never rounds below the floor division.
pub proof fn lemma_tdiv_ge_floor(a: int, d: int)
    requires
        0 < d,
    ensures
        a / d <= tdiv(a, d),
        tdiv(a, d) <= a / d + 1,
{
    if a >= 0 {
    } else {
        vstd::arithmetic::div_mod::lemma_fundamental_div_mod(a, d);
        vstd::arithmetic::div_mod::lemma_fundamental_div_mod(-a, d);
        vstd::arithmetic::div_mod::lemma_mod_division_less_than_divisor(a, d);
        vstd::arithmetic::div_mod::lemma_mod_division_less_than_divisor(-a, d);
        let q1 = a / d;
        let r1 = a % d;
        let q2 = (-a) / d;
        let r2 = (-a) % d;
        assert(d * q1 + r1 + d * q2 + r2 == 0);
        assert(d * (q1 + q2) == -(r1 + r2)) by (nonlinear_arith)
            requires d * q1 + r1 + d * q2 + r2 == 0,
        ;
        assert(-2 * d < -(r1 + r2) <= 0);
        assert(q1 + q2 == 0 || q1 + q2 == -1) by (nonlinear_arith)
            requires
                d * (q1 + q2) == -(r1 + r2),
                -2 * d < -(r1 + r2) <= 0,
                d > 0,
        ;
    }
}

/// Truncating division is monotone in the numerator.
pub proof fn lemma_tdiv_mono(a: int, b: int, d: int)
    requires
        a <= b,
        0 < d,
    ensures
        tdiv(a, d) <= tdiv(b, d),
{
    if a >= 0 {
        vstd::arithmetic::div_mod::lemma_div_is_ordered(a, b, d);
    } else if b < 0 {
        vstd::arithmetic::div_mod::lemma_div_is_ordered(-b, -a, d);
    } else {
        vstd::arithmetic::div_mod::lemma_div_pos_is_pos(-a, d);
        vstd::arithmetic::div_mod::lemma_div_pos_is_pos(b, d);
    }
}

/// Adding `k` whole divisors to the numerator raises a truncating
/// quotient by at most `k`.
pub proof fn lemma_tdiv_shift(a: int, k: int, d: int)
    requires
        0 <= k,
        0 < d,
    ensures
        tdiv(a + k * d, d) <= tdiv(a, d) + k,
{
    vstd::arithmetic::div_mod::lemma_hoist_over_denominator(a, k, d as nat);
    lemma_tdiv_ge_floor(a, d);
    lemma_tdiv_ge_floor(a + k * d, d);
    if a >= 0 {
        assert(tdiv(a + k * d, d) == (a + k * d) / d);
    } else if a + k * d < 0 {
        vstd::arithmetic::div_mod::lemma_hoist_over_denominator(-a - k * d, k, d as nat);
        assert((-a - k * d) + k * d == -a);
        assert((-a - k * d) / d + k == (-a) / d);
        assert(tdiv(a + k * d, d) == -((-a - k * d) / d));
        assert(tdiv(a, d) == -((-a) / d));
    } else {
        // the numerator crosses zero: the truncating quotient equals the
        // floor quotient there, which shifts exactly
        assert(tdiv(a + k * d, d) == (a + k * d) / d);
        assert((a + k * d) / d == a / d + k);
        assert(a / d <= tdiv(a, d));
    }
}

/// The floor square root is monotone.
pub proof fn lemma_sqrt_floor_mono(m: nat, n: nat)
    requires
        m <= n,
    ensures
        sqrt_floor(m) <= sqrt_floor(n),
{
    lemma_sqrt_floor_is(m);
    lemma_sqrt_floor_is(n);
    let r1 = sqrt_floor(m) as int;
    let r2 = sqrt_floor(n) as int;
    assert(r1 <= r2) by (nonlinear_arith)
        requires
            0 <= r1 && r1 * r1 <= m && m < (r1 + 1) * (r1 + 1),
            0 <= r2 && r2 * r2 <= n && n < (r2 + 1) * (r2 + 1),
            m <= n,
    ;
}

/// Scaling by a ratio of at most one keeps a value's magnitude: the
/// truncating quotient stays within the input, and times the denominator
/// it stays within the exact product.
pub proof fn lemma_tdiv_ratio(a: int, num: int, den: int)
    requires
        0 <= num <= den,
        0 < den,
    ensures
        -(if a >= 0 { a } else { -a }) <= tdiv(a * num, den) <= (if a >= 0 { a } else { -a }),
        tdiv(a * num, den) * den <= (if a >= 0 { a } else { -a }) * num,
        -((if a >= 0 { a } else { -a }) * num) <= tdiv(a * num, den) * den,
{
    let m = if a >= 0 { a } else { -a };
    let p = a * num;
    assert(m * num == (if p >= 0 { p } else { -p }) && 0 <= m * num <= m * den)
        by (nonlinear_arith)
        requires
            0 <= num <= den,
            m == (if a >= 0 { a } else { -a }),
            p == a * num,
    ;
    let q = (m * num) / den;
    vstd::arithmetic::div_mod::lemma_div_pos_is_pos(m * num, den);
    vstd::arithmetic::div_mod::lemma_div_is_ordered(m * num, m * den, den);
    vstd::arithmetic::div_mod::lemma_div_by_multiple(m, den);
    assert(0 <= q <= m);
    vstd::arithmetic::div_mod::lemma_fundamental_div_mod(m * num, den);
    vstd::arithmetic::div_mod::lemma_mod_division_less_than_divisor(m * num, den);
    assert(q * den <= m * num) by (nonlinear_arith)
        requires
            m * num == den * q + (m * num) % den,
            0 <= (m * num) % den,
    ;
    if p >= 0 {
        assert(tdiv(p, den) == q);
    } else {
        assert(tdiv(p, den) == -q);
        assert(-q * den >= -(m * num)) by (nonlinear_arith)
            requires q * den <= m * num,
        ;
        assert(-q * den <= m * num) by (nonlinear_arith)
            requires
                0 <= q,
                0 < den,
                0 <= m * num,
        ;
    }
}

/// A fixed-point product with a factor of at most one unit never grows
/// the other factor in magnitude.
pub proof fn lemma_tmul_bounded(a: int, b: int)
    requires
        -(SCALE as int) <= b <= SCALE,
    ensures
        tmul(a, b) <= (if a >= 0 { a } else { -a }),
        -(if a >= 0 { a } else { -a }) <= tmul(a, b),
{
    let m = if a >= 0 { a } else { -a };
    let ab = a * b;
    let mab = if ab >= 0 { ab } else { -ab };
    assert(0 <= mab <= m * (SCALE as int)) by (nonlinear_arith)
        requires
            -(SCALE as int) <= b <= SCALE,
            m == (if a >= 0 { a } else { -a }),
            ab == a * b,
            mab == (if ab >= 0 { ab } else { -ab }),
    ;
    vstd::arithmetic::div_mod::lemma_div_is_ordered(mab, m * (SCALE as int), SCALE as int);
    vstd::arithmetic::div_mod::lemma_div_by_multiple(m, SCALE as int);
    vstd::arithmetic::div_mod::lemma_div_pos_is_pos(mab, SCALE as int);
    if ab >= 0 {
        assert(tmul(a, b) == mab / (SCALE as int));
    } else {
        assert(tmul(a, b) == -(mab / (SCALE as int)));
    }
}

/// Ceiling division for a non-negative numerator and positive divisor.
pub open spec fn cdiv(a: int, d: int) -> int {
    (a + d - 1) / d
}

/// `r` is the floor of the square root of `n`.
pub open spec fn is_sqrt_floor(n: int, r: int) -> bool {
    0 <= r && r * r <= n && n < (r + 1) * (r + 1)
}

/// Floor of the square root, defined by counting up from zero.
pub open spec fn sqrt_floor(n: nat) -> nat
    decreases n,
{
    if n == 0 {
        0
    } else {
        let p = sqrt_floor((n - 1) as nat);
        if (p + 1) * (p + 1) <= n {
            p + 1
        } else {
            p
        }
    }
}

pub proof fn lemma_sqrt_floor_is(n: nat)
    ensures
        is_sqrt_floor(n as int, sqrt_floor(n) as int),
    decreases n,
{
    if n > 0 {
        lemma_sqrt_floor_is((n - 1) as nat);
        let p = sqrt_floor((n - 1) as nat);
        assert((p + 1) * (p + 1) < (p + 2) * (p + 2)) by (nonlinear_arith);
    }
}

/// The floor square root is unique.
pub proof fn lemma_sqrt_floor_unique(n: int, r1: int, r2: int)
    requires
        is_sqrt_floor(n, r1),
        is_sqrt_floor(n, r2),
    ensures
        r1 == r2,
{
    assert(r1 == r2) by (nonlinear_arith)
        requires
            0 <= r1 && r1 * r1 <= n && n < (r1 + 1) * (r1 + 1),
            0 <= r2 && r2 * r2 <= n && n < (r2 + 1) * (r2 + 1),
    ;
}

/// Floor square root by bisection.
pub fn isqrt(n: u128) -> (r: u64)
    ensures
        r as nat == sqrt_floor(n as nat),
        is_sqrt_floor(n as int, r as int),
{
    proof {
        lemma_sqrt_floor_is(n as nat);
    }
    proof {
        assert((0xffffffffffffffffu64 as int) * (0xffffffffffffffffu64 as int)
            == 0xfffffffffffffffe000000000000000 * 0x10 + 0x1) by (nonlinear_arith);
    }
    let r: u64 = if n >= 0xfffffffffffffffe000000000000000u128 * 0x10 + 0x1 {
        // n is at least (2^64 - 1)^2, whose root saturates the result type.
        0xffffffffffffffff
    } else {
        let mut lo: u64 = 0;
        let mut hi: u64 = 0xffffffffffffffff;
        while lo + 1 < hi
            invariant
                lo < hi,
                (lo as int) * (lo as int) <= n,
                (hi as int) * (hi as int) > n,
            decreases hi - lo,
        {
            let mid: u64 = lo + (hi - lo) / 2;
            proof {
                assert((mid as int) * (mid as int)
                    <= (0xffffffffffffffffu64 as int) * (0xffffffffffffffffu64 as int))
                    by (nonlinear_arith)
                    requires 0 <= mid as int <= 0xffffffffffffffffu64 as int,
                ;
            }
            if (mid as u128) * (mid as u128) <= n {
                lo = mid;
            } else {
                hi = mid;
            }
        }
        lo
    };
    proof {
        assert(is_sqrt_floor(n as int, r as int));
        lemma_sqrt_floor_unique(n as int, r as int, sqrt_floor(n as nat) as int);
    }
    r
}

/// Scale `a` by the ratio `num / den` with `num <= den`, truncating toward
/// zero; the result never grows past `a` in magnitude.
pub fn mul_div_trunc(a: i64, num: u64, den: u64) -> (r: i64)
    requires
        den > 0,
        num <= den,
    ensures
        r as int == tdiv(a as int * num as int, den as int),
        r as int <= (if a >= 0 { a as int } else { -(a as int) }),
        -(r as int) <= (if a >= 0 { a as int } else { -(a as int) }),
{
    let ma = abs128(a);
    proof {
        assert(ma as int * num as int <= 0x8000000000000000 * 0xffffffffffffffff)
            by (nonlinear_arith)
            requires
                0 <= ma as int <= 0x8000000000000000,
                0 <= num as int <= 0xffffffffffffffff,
        ;
    }
    let p: u128 = ma * (num as u128);
    let q: u128 = p / (den as u128);
    proof {
        assert(p as int <= ma as int * den as int) by (nonlinear_arith)
            requires
                p as int == ma as int * num as int,
                num as int <= den as int,
                ma as int >= 0,
        ;
        vstd::arithmetic::div_mod::lemma_div_is_ordered(p as int, ma as int * den as int, den as int);
        vstd::arithmetic::div_mod::lemma_div_by_multiple(ma as int, den as int);
        assert(q as int <= ma as int);
    }
    if a >= 0 {
        q as i64
    } else {
        proof {
            assert(-(a as int) * num as int == -(a as int * num as int)) by (nonlinear_arith);
        }
        (-(q as i128)) as i64
    }
}

/// Clamp a scalar into `[lo, hi]`.
pub fn fx_clamp(x: i64, lo: i64, hi: i64) -> (r: i64)
    requires
        lo <= hi,
    ensures
        r as int == clamp_s(x as int, lo as int, hi as int),
{
    if x < lo {
        lo
    } else if x > hi {
        hi
    } else {
        x
    }
}

} // verus!
