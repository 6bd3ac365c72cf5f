//! Three-component fixed-point vectors.
//!
//! `V3` carries world positions, velocities and direction vectors in
//! micro-units.  Its mathematical view is `V3i`, the same triple over
//! unbounded integers, which every contract speaks of.

use vstd::prelude::*;
use crate::fx::{sat_s, tdiv, tmul, sqrt_floor, SCALE, LIM};

verus! {

/// A fixed-point vector: each component counts micro-units.
#[derive(Clone, Copy, Debug, PartialEq, Eq, Structural)]
pub struct V3 {
    pub x: i64,
    pub y: i64,
    pub z: i64,
}

/// The mathematical shadow of a `V3`.
pub ghost struct V3i {
    pub x: int,
    pub y: int,
    pub z: int,
}

impl View for V3 {
    type V = V3i;

    open spec fn view(&self) -> V3i {
        V3i { x: self.x as int, y: self.y as int, z: self.z as int }
    }
}

impl V3 {
    /// The zero vector.
    pub fn zero() -> (r: V3)
        ensures
            r@ == zero_s(),
    {
        V3 { x: 0, y: 0, z: 0 }
    }

    /// Build a vector from raw micro-unit components.
    pub fn new(x: i64, y: i64, z: i64) -> (r: V3)
        ensures
            r@ == (V3i { x: x as int, y: y as int, z: z as int }),
    {
        V3 { x, y, z }
    }
}

/// The zero vector's view.
pub open spec fn zero_s() -> V3i {
    V3i { x: 0, y: 0, z: 0 }
}

/// All components within the storage bound.
pub open spec fn in_lim(v: V3i) -> bool {
    &&& -(LIM as int) <= v.x <= LIM
    &&& -(LIM as int) <= v.y <= LIM
    &&& -(LIM as int) <= v.z <= LIM
}

/// Component-wise saturating sum.
pub open spec fn add_s(a: V3i, b: V3i) -> V3i {
    V3i { x: sat_s(a.x + b.x), y: sat_s(a.y + b.y), z: sat_s(a.z + b.z) }
}

/// Scale by a fixed-point scalar, saturating.
pub open spec fn scale_s(v: V3i, k: int) -> V3i {
    V3i { x: sat_s(tmul(v.x, k)), y: sat_s(tmul(v.y, k)), z: sat_s(tmul(v.z, k)) }
}

/// Raw dot product, before the fixed-point rescale.
pub open spec fn dot_wide_s(a: V3i, b: V3i) -> int {
    a.x * b.x + a.y * b.y + a.z * b.z
}

/// Fixed-point dot product (the projection of `a` onto `b` when `b` has
/// unit length), saturating.
pub open spec fn dot_s(a: V3i, b: V3i) -> int {
    sat_s(tdiv(dot_wide_s(a, b), SCALE as int))
}

/// Sum of squared components.
pub open spec fn norm2_s(v: V3i) -> int {
    v.x * v.x + v.y * v.y + v.z * v.z
}

/// Vector magnitude: floor square root of the squared norm.
pub open spec fn speed_s(v: V3i) -> int {
    sqrt_floor(norm2_s(v) as nat) as int
}

/// Scale each component by the ratio `num / den`, truncating toward zero.
pub open spec fn scale_ratio_s(v: V3i, num: int, den: int) -> V3i {
    V3i {
        x: tdiv(v.x * num, den),
        y: tdiv(v.y * num, den),
        z: tdiv(v.z * num, den),
    }
}

/// Rotation about the vertical (y) axis, given the cosine and sine of the
/// angle as fixed-point scalars.
pub open spec fn rot_y_s(v: V3i, c: int, s: int) -> V3i {
    V3i {
        x: sat_s(tmul(v.x, c) + tmul(v.z, s)),
        y: v.y,
        z: sat_s(tmul(v.z, c) - tmul(v.x, s)),
    }
}

/// Rotation about the side (x) axis, given the cosine and sine of the
/// angle as fixed-point scalars.
pub open spec fn rot_x_s(v: V3i, c: int, s: int) -> V3i {
    V3i {
        x: v.x,
        y: sat_s(tmul(v.y, c) - tmul(v.z, s)),
        z: sat_s(tmul(v.y, s) + tmul(v.z, c)),
    }
}

/// Saturating vector sum.
pub fn v3_add(a: &V3, b: &V3) -> (r: V3)
    ensures
        r@ == add_s(a@, b@),
{
    V3 {
        x: crate::fx::fx_add(a.x, b.x),
        y: crate::fx::fx_add(a.y, b.y),
        z: crate::fx::fx_add(a.z, b.z),
    }
}

/// Saturating scale by a fixed-point scalar.
pub fn v3_scale(v: &V3, k: i64) -> (r: V3)
    ensures
        r@ == scale_s(v@, k as int),
{
    V3 {
        x: crate::fx::fx_mul(v.x, k),
        y: crate::fx::fx_mul(v.y, k),
        z: crate::fx::fx_mul(v.z, k),
    }
}

/// Fixed-point dot product: the raw products are summed wide and divided
/// once, so no precision is lost before the final rescale.
pub fn v3_dot(a: &V3, b: &V3) -> (r: i64)
    requires
        in_lim(a@),
        in_lim(b@),
    ensures
        r as int == dot_s(a@, b@),
{
    let px = crate::fx::mul_i128(a.x, b.x);
    let py = crate::fx::mul_i128(a.y, b.y);
    let pz = crate::fx::mul_i128(a.z, b.z);
    proof {
        lemma_prod_bound(a@.x, b@.x);
        lemma_prod_bound(a@.y, b@.y);
        lemma_prod_bound(a@.z, b@.z);
    }
    crate::fx::sat64(crate::fx::tdiv_scale_wide(px + py + pz))
}

/// A product of two in-bound components stays within `LIM * LIM`.
proof fn lemma_prod_bound(a: int, b: int)
    requires
        -(LIM as int) <= a <= LIM,
        -(LIM as int) <= b <= LIM,
    ensures
        -(LIM as int) * (LIM as int) <= a * b <= (LIM as int) * (LIM as int),
{
    assert(-(LIM as int) * (LIM as int) <= a * b <= (LIM as int) * (LIM as int))
        by (nonlinear_arith)
        requires
            -(LIM as int) <= a <= LIM,
            -(LIM as int) <= b <= LIM,
    ;
}

/// Vector magnitude in micro-units.
pub fn v3_speed(v: &V3) -> (r: i64)
    requires
        in_lim(v@),
    ensures
        r as int == speed_s(v@),
        0 <= r <= 2_000_000_000_000_000,
{
    let sx = crate::fx::mul_i128(v.x, v.x);
    let sy = crate::fx::mul_i128(v.y, v.y);
    let sz = crate::fx::mul_i128(v.z, v.z);
    proof {
        lemma_prod_bound(v@.x, v@.x);
        lemma_prod_bound(v@.y, v@.y);
        lemma_prod_bound(v@.z, v@.z);
        lemma_square_nonneg(v@.x);
        lemma_square_nonneg(v@.y);
        lemma_square_nonneg(v@.z);
    }
    let n: i128 = sx + sy + sz;
    let rt: u64 = crate::fx::isqrt(n as u128);
    proof {
        assert(rt as int <= 2_000_000_000_000_000) by (nonlinear_arith)
            requires
                (rt as int) * (rt as int) <= n as int,
                n as int <= 3 * ((LIM as int) * (LIM as int)),
                LIM == 1_000_000_000_000_000,
                rt as int >= 0,
        ;
    }
    rt as i64
}

/// Squares are never negative.
proof fn lemma_square_nonneg(a: int)
    ensures
        a * a >= 0,
{
    assert(a * a >= 0) by (nonlinear_arith);
}

/// Rotate about the vertical axis by the angle whose cosine and sine are
/// `c` and `s`.
pub fn v3_rot_y(v: &V3, c: i64, s: i64) -> (r: V3)
    requires
        -SCALE <= c <= SCALE,
        -SCALE <= s <= SCALE,
    ensures
        r@ == rot_y_s(v@, c as int, s as int),
{
    proof {
        crate::fx::lemma_tmul_bounded(v@.x, c as int);
        crate::fx::lemma_tmul_bounded(v@.z, c as int);
        crate::fx::lemma_tmul_bounded(v@.x, s as int);
        crate::fx::lemma_tmul_bounded(v@.z, s as int);
    }
    let xc = crate::fx::tmul_wide(v.x, c);
    let zs = crate::fx::tmul_wide(v.z, s);
    let zc = crate::fx::tmul_wide(v.z, c);
    let xs = crate::fx::tmul_wide(v.x, s);
    V3 {
        x: crate::fx::sat64(xc + zs),
        y: v.y,
        z: crate::fx::sat64(zc - xs),
    }
}

/// Rotate about the side axis by the angle whose cosine and sine are `c`
/// and `s`.
pub fn v3_rot_x(v: &V3, c: i64, s: i64) -> (r: V3)
    requires
        -SCALE <= c <= SCALE,
        -SCALE <= s <= SCALE,
    ensures
        r@ == rot_x_s(v@, c as int, s as int),
{
    proof {
        crate::fx::lemma_tmul_bounded(v@.y, c as int);
        crate::fx::lemma_tmul_bounded(v@.z, c as int);
        crate::fx::lemma_tmul_bounded(v@.y, s as int);
        crate::fx::lemma_tmul_bounded(v@.z, s as int);
    }
    let yc = crate::fx::tmul_wide(v.y, c);
    let zs = crate::fx::tmul_wide(v.z, s);
    let ys = crate::fx::tmul_wide(v.y, s);
    let zc = crate::fx::tmul_wide(v.z, c);
    V3 {
        x: v.x,
        y: crate::fx::sat64(yc - zs),
        z: crate::fx::sat64(ys + zc),
    }
}

/// Scale each component by `num / den`; no component grows in magnitude.
pub fn v3_scale_ratio(v: &V3, num: u64, den: u64) -> (r: V3)
    requires
        den > 0,
        num <= den,
    ensures
        r@ == scale_ratio_s(v@, num as int, den as int),
        in_lim(v@) ==> in_lim(r@),
{
    let x = crate::fx::mul_div_trunc(v.x, num, den);
    let y = crate::fx::mul_div_trunc(v.y, num, den);
    let z = crate::fx::mul_div_trunc(v.z, num, den);
    V3 { x, y, z }
}

} // verus!
