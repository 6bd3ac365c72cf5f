//! Ground-movement character controller.
//!
//! Per fixed tick the controller turns discrete key state and the camera's
//! yaw into a new facing, then runs a friction-then-accelerate velocity
//! update: friction first scales the velocity toward rest, then, while
//! keys are held, acceleration pushes along the facing but never past
//! `max_speed` in the facing direction.  An optional time-of-impact from a
//! host collision query scales the tick's motion before it is integrated.

use vstd::prelude::*;
use crate::angle::{
    sin_s, cos_s, wrap_s, turn_toward_s, HALF_PI_FX, PI_FX, QUARTER_PI_FX, TAU_FX,
};
use crate::fx::{cdiv, clamp_s, sat_s, tmul, SCALE, LIM};
use crate::pose::Pose;
use crate::vec3::{
    add_s, dot_s, in_lim, scale_ratio_s, scale_s, speed_s, zero_s, V3, V3i,
};

verus! {

/// Three eighth turns in micro-radians.
pub const THREE_QUARTER_PI_FX: i64 = 2_356_194;

/// Movement tuning and persistent velocity for one controlled entity.
///
/// `id` pairs the controller with the camera rig whose `target_id` equals
/// it.  All scalars are fixed-point; speeds are units per second, friction
/// is per second, and `velocity` is units per tick.
#[derive(Clone, Copy, Debug, PartialEq, Eq, Structural)]
pub struct ThirdPersonController {
    pub id: u64,
    pub rotation_speed: i64,
    pub movement_speed: i64,
    pub sprint_speed: i64,
    pub max_speed: i64,
    pub friction: i64,
    pub velocity: V3,
}

impl ThirdPersonController {
    /// Well-formed: tuning scalars are non-negative and storable, and the
    /// velocity is in bounds.
    pub open spec fn wf(&self) -> bool {
        &&& 0 <= self.rotation_speed <= LIM
        &&& 0 <= self.movement_speed <= LIM
        &&& 0 <= self.sprint_speed <= LIM
        &&& 0 <= self.max_speed <= LIM
        &&& 0 <= self.friction <= LIM
        &&& in_lim(self.velocity@)
    }
}

impl Default for ThirdPersonController {
    /// The stock tuning: walk 20, sprint 30, cap 3500, friction 100.
    fn default() -> (r: Self)
        ensures
            r.id == 0,
            r.rotation_speed == 160 * SCALE,
            r.movement_speed == 20 * SCALE,
            r.sprint_speed == 30 * SCALE,
            r.max_speed == 3500 * SCALE,
            r.friction == 100 * SCALE,
            r.velocity@ == zero_s(),
            r.wf(),
    {
        ThirdPersonController {
            id: 0,
            rotation_speed: 160_000_000,
            movement_speed: 20_000_000,
            sprint_speed: 30_000_000,
            max_speed: 3_500_000_000,
            friction: 100_000_000,
            velocity: V3 { x: 0, y: 0, z: 0 },
        }
    }
}

/// Pressed key state for one tick, already resolved from the host's
/// bindings.
#[derive(Clone, Copy, Debug, PartialEq, Eq, Structural)]
pub struct KeyState {
    pub forward: bool,
    pub back: bool,
    pub left: bool,
    pub right: bool,
    pub sprint: bool,
}

impl KeyState {
    /// No key held.
    pub fn released() -> (r: KeyState)
        ensures
            !r.forward && !r.back && !r.left && !r.right && !r.sprint,
    {
        KeyState { forward: false, back: false, left: false, right: false, sprint: false }
    }
}

/// One when a key is held, zero otherwise.
pub open spec fn pressed_s(pressed: bool) -> int {
    if pressed {
        1
    } else {
        0
    }
}

/// A signed axis from an opposed key pair: each of `{-1, 0, 1}`, with
/// simultaneous opposite keys cancelling to zero.
pub open spec fn axis_s(pos: bool, neg: bool) -> int {
    pressed_s(pos) - pressed_s(neg)
}

/// One when a key is held, zero otherwise.
pub fn get_pressed(pressed: bool) -> (r: i64)
    ensures
        r as int == pressed_s(pressed),
{
    if pressed {
        1
    } else {
        0
    }
}

/// A signed axis from an opposed key pair.
pub fn get_axis(pos: bool, neg: bool) -> (r: i64)
    ensures
        r as int == axis_s(pos, neg),
        -1 <= r <= 1,
{
    get_pressed(pos) - get_pressed(neg)
}

/// The plane angle of a unit key-axis vector: the fixed-point arc tangent
/// of `y / x` over the eight compass directions.
pub open spec fn input_angle_s(x: int, y: int) -> int {
    if x == 1 && y == 0 {
        0
    } else if x == 1 && y == 1 {
        QUARTER_PI_FX as int
    } else if x == 0 && y == 1 {
        HALF_PI_FX as int
    } else if x == -1 && y == 1 {
        THREE_QUARTER_PI_FX as int
    } else if x == -1 && y == 0 {
        PI_FX as int
    } else if x == -1 && y == -1 {
        -THREE_QUARTER_PI_FX as int
    } else if x == 0 && y == -1 {
        -HALF_PI_FX as int
    } else if x == 1 && y == -1 {
        -QUARTER_PI_FX as int
    } else {
        0
    }
}

/// The plane angle of a unit key-axis vector.
pub fn input_angle(x: i64, y: i64) -> (r: i64)
    requires
        -1 <= x <= 1,
        -1 <= y <= 1,
    ensures
        r as int == input_angle_s(x as int, y as int),
{
    if x == 1 && y == 0 {
        0
    } else if x == 1 && y == 1 {
        QUARTER_PI_FX
    } else if x == 0 && y == 1 {
        HALF_PI_FX
    } else if x == -1 && y == 1 {
        THREE_QUARTER_PI_FX
    } else if x == -1 && y == 0 {
        PI_FX
    } else if x == -1 && y == -1 {
        -THREE_QUARTER_PI_FX
    } else if x == 0 && y == -1 {
        -HALF_PI_FX
    } else if x == 1 && y == -1 {
        -QUARTER_PI_FX
    } else {
        0
    }
}

/// What is left of a speed after one tick of friction: the drop is
/// `speed * friction * dt`, rounded up to a whole raw tick so decay cannot
/// stall above rest, and the result never goes below zero.
pub open spec fn keep_of_s(speed: int, fdt: int) -> int {
    let drop = cdiv(speed * fdt, SCALE as int);
    if drop >= speed {
        0
    } else {
        speed - drop
    }
}

/// One tick of friction: rescale the velocity by `keep / speed`, which
/// decays it toward rest and never flips its direction.
pub open spec fn apply_friction_s(v: V3i, fdt: int) -> V3i {
    let s = speed_s(v);
    if s == 0 {
        v
    } else {
        scale_ratio_s(v, keep_of_s(s, fdt), s)
    }
}

/// One tick of friction; `fdt` is `friction * dt` in fixed point.
pub fn apply_friction(v: &V3, fdt: i64) -> (r: V3)
    requires
        in_lim(v@),
        0 <= fdt <= LIM,
    ensures
        r@ == apply_friction_s(v@, fdt as int),
        in_lim(r@),
{
    let s = crate::vec3::v3_speed(v);
    if s == 0 {
        *v
    } else {
        proof {
            assert(s as int * fdt as int
                <= 2_000_000_000_000_000 * 1_000_000_000_000_000) by (nonlinear_arith)
                requires
                    0 <= s as int <= 2_000_000_000_000_000,
                    0 <= fdt as int <= 1_000_000_000_000_000,
            ;
        }
        let p: u128 = (s as u128) * (fdt as u128);
        let dropc: u128 = (p + (SCALE as u128 - 1)) / (SCALE as u128);
        if dropc >= s as u128 {
            proof {
                vstd::arithmetic::div_mod::lemma_div_of0(s as int);
                assert(v@.x * 0 == 0 && v@.y * 0 == 0 && v@.z * 0 == 0) by (nonlinear_arith);
                assert(scale_ratio_s(v@, 0, s as int) == zero_s());
            }
            V3 { x: 0, y: 0, z: 0 }
        } else {
            let keep: u64 = (s as u128 - dropc) as u64;
            crate::vec3::v3_scale_ratio(v, keep, s as u64)
        }
    }
}

/// A vector of speed zero is the zero vector.
pub proof fn lemma_speed_zero_is_rest(v: V3i)
    requires
        speed_s(v) == 0,
    ensures
        v == zero_s(),
{
    crate::fx::lemma_sqrt_floor_is(crate::vec3::norm2_s(v) as nat);
    assert(v.x * v.x >= 0 && v.y * v.y >= 0 && v.z * v.z >= 0) by (nonlinear_arith);
    assert(crate::vec3::norm2_s(v) == 0);
    assert(v.x == 0 && v.y == 0 && v.z == 0) by (nonlinear_arith)
        requires
            v.x * v.x + v.y * v.y + v.z * v.z == 0,
            v.x * v.x >= 0 && v.y * v.y >= 0 && v.z * v.z >= 0,
    ;
}

/// Friction leaves the rest state at rest.
pub proof fn lemma_friction_fixes_rest(fdt: int)
    ensures
        apply_friction_s(zero_s(), fdt) == zero_s(),
{
    assert(crate::vec3::norm2_s(zero_s()) == 0);
    assert(speed_s(zero_s()) == 0);
}

/// One tick of friction never raises the speed: with zero input the speed
/// is non-increasing from tick to tick.
pub proof fn lemma_friction_monotone(v: V3i, fdt: int)
    requires
        0 <= fdt,
    ensures
        speed_s(apply_friction_s(v, fdt)) <= speed_s(v),
{
    let s = speed_s(v);
    if s != 0 {
        let numer = s * fdt + SCALE - 1;
        assert(s * fdt >= 0) by (nonlinear_arith)
            requires s >= 0 && fdt >= 0,
        ;
        vstd::arithmetic::div_mod::lemma_div_pos_is_pos(numer, SCALE as int);
        let drop = crate::fx::cdiv(s * fdt, SCALE as int);
        let keep = keep_of_s(s, fdt);
        assert(0 <= keep <= s);
        let w = apply_friction_s(v, fdt);
        crate::fx::lemma_tdiv_ratio(v.x, keep, s);
        crate::fx::lemma_tdiv_ratio(v.y, keep, s);
        crate::fx::lemma_tdiv_ratio(v.z, keep, s);
        lemma_norm2_component_mono(v, w);
        crate::fx::lemma_sqrt_floor_mono(crate::vec3::norm2_s(w) as nat,
            crate::vec3::norm2_s(v) as nat);
    }
}

/// When each component of `w` is bounded in magnitude by the matching
/// component of `v`, the squared norm cannot grow.
proof fn lemma_norm2_component_mono(v: V3i, w: V3i)
    requires
        -(if v.x >= 0 { v.x } else { -v.x }) <= w.x <= (if v.x >= 0 { v.x } else { -v.x }),
        -(if v.y >= 0 { v.y } else { -v.y }) <= w.y <= (if v.y >= 0 { v.y } else { -v.y }),
        -(if v.z >= 0 { v.z } else { -v.z }) <= w.z <= (if v.z >= 0 { v.z } else { -v.z }),
    ensures
        0 <= crate::vec3::norm2_s(w) <= crate::vec3::norm2_s(v),
{
    assert(0 <= w.x * w.x <= v.x * v.x) by (nonlinear_arith)
        requires -(if v.x >= 0 { v.x } else { -v.x }) <= w.x
            <= (if v.x >= 0 { v.x } else { -v.x }),
    ;
    assert(0 <= w.y * w.y <= v.y * v.y) by (nonlinear_arith)
        requires -(if v.y >= 0 { v.y } else { -v.y }) <= w.y
            <= (if v.y >= 0 { v.y } else { -v.y }),
    ;
    assert(0 <= w.z * w.z <= v.z * v.z) by (nonlinear_arith)
        requires -(if v.z >= 0 { v.z } else { -v.z }) <= w.z
            <= (if v.z >= 0 { v.z } else { -v.z }),
    ;
}

/// While any speed is left and `friction * dt` is at least one raw tick,
/// a tick of friction strictly lowers the speed.
pub proof fn lemma_friction_strict(v: V3i, fdt: int)
    requires
        1 <= fdt,
        1 <= speed_s(v),
    ensures
        speed_s(apply_friction_s(v, fdt)) < speed_s(v),
{
    let s = speed_s(v);
    let w = apply_friction_s(v, fdt);
    assert(s * fdt >= 1) by (nonlinear_arith)
        requires s >= 1 && fdt >= 1,
    ;
    let drop = crate::fx::cdiv(s * fdt, SCALE as int);
    vstd::arithmetic::div_mod::lemma_div_is_ordered(SCALE as int, s * fdt + SCALE - 1,
        SCALE as int);
    vstd::arithmetic::div_mod::lemma_div_by_self(SCALE as int);
    assert(drop >= 1);
    let keep = keep_of_s(s, fdt);
    assert(0 <= keep <= s - 1);
    crate::fx::lemma_tdiv_ratio(v.x, keep, s);
    crate::fx::lemma_tdiv_ratio(v.y, keep, s);
    crate::fx::lemma_tdiv_ratio(v.z, keep, s);
    let n2v = crate::vec3::norm2_s(v);
    let n2w = crate::vec3::norm2_s(w);
    let ss = s * s;
    let kk = keep * keep;
    let wx2 = w.x * w.x;
    let wy2 = w.y * w.y;
    let wz2 = w.z * w.z;
    let vx2 = v.x * v.x;
    let vy2 = v.y * v.y;
    let vz2 = v.z * v.z;
    assert(wx2 * ss <= vx2 * kk) by (nonlinear_arith)
        requires
            w.x * s <= (if v.x >= 0 { v.x } else { -v.x }) * keep,
            -((if v.x >= 0 { v.x } else { -v.x }) * keep) <= w.x * s,
            wx2 == w.x * w.x,
            vx2 == v.x * v.x,
            ss == s * s,
            kk == keep * keep,
    ;
    assert(wy2 * ss <= vy2 * kk) by (nonlinear_arith)
        requires
            w.y * s <= (if v.y >= 0 { v.y } else { -v.y }) * keep,
            -((if v.y >= 0 { v.y } else { -v.y }) * keep) <= w.y * s,
            wy2 == w.y * w.y,
            vy2 == v.y * v.y,
            ss == s * s,
            kk == keep * keep,
    ;
    assert(wz2 * ss <= vz2 * kk) by (nonlinear_arith)
        requires
            w.z * s <= (if v.z >= 0 { v.z } else { -v.z }) * keep,
            -((if v.z >= 0 { v.z } else { -v.z }) * keep) <= w.z * s,
            wz2 == w.z * w.z,
            vz2 == v.z * v.z,
            ss == s * s,
            kk == keep * keep,
    ;
    assert(n2w * ss == wx2 * ss + wy2 * ss + wz2 * ss) by (nonlinear_arith)
        requires n2w == wx2 + wy2 + wz2,
    ;
    assert(n2v * kk == vx2 * kk + vy2 * kk + vz2 * kk) by (nonlinear_arith)
        requires n2v == vx2 + vy2 + vz2,
    ;
    assert(n2w * ss <= n2v * kk);
    assert(n2v >= 0 && n2w >= 0) by (nonlinear_arith)
        requires
            n2v == v.x * v.x + v.y * v.y + v.z * v.z,
            n2w == w.x * w.x + w.y * w.y + w.z * w.z,
    ;
    crate::fx::lemma_sqrt_floor_is(n2v as nat);
    assert(n2v <= ss + 2 * s) by (nonlinear_arith)
        requires
            n2v < (s + 1) * (s + 1),
            ss == s * s,
    ;
    assert(n2v * kk <= (ss + 2 * s) * kk) by (nonlinear_arith)
        requires
            n2v <= ss + 2 * s,
            kk == keep * keep,
    ;
    assert(kk <= (s - 1) * (s - 1)) by (nonlinear_arith)
        requires
            kk == keep * keep,
            0 <= keep <= s - 1,
    ;
    assert((ss + 2 * s) * kk <= (ss + 2 * s) * ((s - 1) * (s - 1))) by (nonlinear_arith)
        requires
            kk <= (s - 1) * (s - 1),
            ss == s * s,
            1 <= s,
    ;
    assert((ss + 2 * s) * ((s - 1) * (s - 1)) < ss * ss) by (nonlinear_arith)
        requires
            ss == s * s,
            1 <= s,
    ;
    assert(n2w * ss < ss * ss);
    assert(n2w < ss) by (nonlinear_arith)
        requires
            n2w * ss < ss * ss,
            ss == s * s,
            1 <= s,
    ;
    crate::fx::lemma_sqrt_floor_is(n2w as nat);
    let r = crate::fx::sqrt_floor(n2w as nat) as int;
    assert(r < s) by (nonlinear_arith)
        requires
            0 <= r,
            r * r <= n2w,
            n2w < ss,
            ss == s * s,
            1 <= s,
    ;
}

/// Velocity after `n` ticks of friction alone.
pub open spec fn decay_iter_s(v: V3i, fdt: int, n: nat) -> V3i
    decreases n,
{
    if n == 0 {
        v
    } else {
        decay_iter_s(apply_friction_s(v, fdt), fdt, (n - 1) as nat)
    }
}

/// With zero input the speed never grows from one tick to the next,
/// however many ticks have already passed.
pub proof fn lemma_decay_monotone(v: V3i, fdt: int, n: nat)
    requires
        0 <= fdt,
    ensures
        speed_s(decay_iter_s(v, fdt, n + 1)) <= speed_s(decay_iter_s(v, fdt, n)),
    decreases n,
{
    let w = apply_friction_s(v, fdt);
    if n == 0 {
        lemma_friction_monotone(v, fdt);
        assert(decay_iter_s(w, fdt, 0) == w);
        assert(decay_iter_s(v, fdt, 1) == w);
    } else {
        lemma_decay_monotone(w, fdt, (n - 1) as nat);
    }
}

/// With zero input and `friction * dt` of at least one raw tick, the
/// velocity reaches exact rest within `speed` ticks — it never decays
/// merely asymptotically and never undershoots below zero.
pub proof fn lemma_decay_reaches_rest(v: V3i, fdt: int, n: nat)
    requires
        1 <= fdt,
        speed_s(v) <= n,
    ensures
        decay_iter_s(v, fdt, n) == zero_s(),
    decreases n,
{
    let s = speed_s(v);
    if n == 0 {
        lemma_speed_zero_is_rest(v);
    } else {
        let w = apply_friction_s(v, fdt);
        if s == 0 {
            lemma_speed_zero_is_rest(v);
            lemma_friction_fixes_rest(fdt);
            assert(w == zero_s());
            assert(speed_s(w) == 0);
            lemma_decay_reaches_rest(w, fdt, (n - 1) as nat);
        } else {
            lemma_friction_strict(v, fdt);
            lemma_decay_reaches_rest(w, fdt, (n - 1) as nat);
        }
    }
}

/// How much speed the tick may add along the facing: the requested amount,
/// truncated so the projection does not pass `max_vel`.
pub open spec fn accel_amount_s(proj: int, accel: int, max_vel: int) -> int {
    if proj + accel > max_vel {
        max_vel - proj
    } else {
        accel
    }
}

/// Quake-style acceleration: project the velocity onto the requested
/// direction, cap the speed gain so the projection cannot pass `max_vel`,
/// and add the capped gain along the direction.
pub open spec fn accelerate_s(
    accel_dir: V3i,
    prev_velocity: V3i,
    accel: int,
    max_vel: int,
    dt: int,
) -> V3i {
    let proj = dot_s(prev_velocity, accel_dir);
    let acc0 = sat_s(tmul(accel, dt));
    let acc = accel_amount_s(proj, acc0, max_vel);
    add_s(prev_velocity, scale_s(accel_dir, acc))
}

/// Quake-style acceleration along `accel_dir` (a unit-or-zero vector).
pub fn accelerate(
    accel_dir: &V3,
    prev_velocity: &V3,
    accel: i64,
    max_velocity: i64,
    dt: i64,
) -> (r: V3)
    requires
        in_lim(accel_dir@),
        in_lim(prev_velocity@),
        0 <= accel <= LIM,
        0 <= max_velocity <= LIM,
        0 <= dt <= SCALE,
    ensures
        r@ == accelerate_s(accel_dir@, prev_velocity@, accel as int, max_velocity as int,
            dt as int),
        in_lim(r@),
{
    let proj = crate::vec3::v3_dot(prev_velocity, accel_dir);
    let acc0 = crate::fx::fx_mul(accel, dt);
    let acc = if proj + acc0 > max_velocity {
        max_velocity - proj
    } else {
        acc0
    };
    let gain = crate::vec3::v3_scale(accel_dir, acc);
    crate::vec3::v3_add(prev_velocity, &gain)
}

/// One acceleration term projected back onto its own axis never beats the
/// exact product: truncation only loses magnitude.
proof fn lemma_proj_term(di: int, acc: int)
    requires
        0 <= acc,
    ensures
        tmul(di, acc) * di * SCALE <= di * di * acc,
{
    let p = di * acc;
    let t = tmul(di, acc);
    if p >= 0 {
        vstd::arithmetic::div_mod::lemma_fundamental_div_mod(p, SCALE as int);
        vstd::arithmetic::div_mod::lemma_mod_division_less_than_divisor(p, SCALE as int);
        assert(t * SCALE <= p) by (nonlinear_arith)
            requires
                p == SCALE * t + p % (SCALE as int),
                0 <= p % (SCALE as int),
        ;
        if di >= 0 {
            assert(t * di * SCALE <= di * di * acc) by (nonlinear_arith)
                requires
                    t * SCALE <= p,
                    p == di * acc,
                    di >= 0,
            ;
        } else {
            // a non-negative product with a negative axis forces acc == 0
            assert(acc == 0) by (nonlinear_arith)
                requires
                    di < 0,
                    0 <= acc,
                    di * acc >= 0,
            ;
            assert(p == 0) by (nonlinear_arith)
                requires p == di * acc && acc == 0,
            ;
            vstd::arithmetic::div_mod::lemma_div_of0(SCALE as int);
            assert(t == 0);
            assert(t * di * SCALE == 0 && di * di * acc == 0) by (nonlinear_arith)
                requires t == 0 && acc == 0,
            ;
        }
    } else {
        vstd::arithmetic::div_mod::lemma_fundamental_div_mod(-p, SCALE as int);
        vstd::arithmetic::div_mod::lemma_mod_division_less_than_divisor(-p, SCALE as int);
        assert(t * SCALE >= p) by (nonlinear_arith)
            requires
                -p == SCALE * ((-p) / (SCALE as int)) + (-p) % (SCALE as int),
                0 <= (-p) % (SCALE as int),
                t == -((-p) / (SCALE as int)),
        ;
        assert(di < 0) by (nonlinear_arith)
            requires di * acc < 0 && 0 <= acc,
        ;
        assert(t * di * SCALE <= di * di * acc) by (nonlinear_arith)
            requires
                t * SCALE >= p,
                p == di * acc,
                di < 0,
        ;
    }
}

/// Acceleration never drives the projection of the velocity onto the
/// facing past `max_vel`: whatever friction, speed and time step produced
/// the request, the capped gain lands the projection at or below the cap.
/// The bounds keep every intermediate inside the saturation range.
pub proof fn lemma_accelerate_caps_projection(
    d: V3i,
    v: V3i,
    accel: int,
    max_vel: int,
    dt: int,
)
    requires
        crate::vec3::dot_wide_s(d, d) <= SCALE * SCALE,
        -(LIM as int) / 4 <= v.x <= (LIM as int) / 4,
        -(LIM as int) / 4 <= v.y <= (LIM as int) / 4,
        -(LIM as int) / 4 <= v.z <= (LIM as int) / 4,
        0 <= accel <= (LIM as int) / 4,
        0 <= max_vel <= (LIM as int) / 4,
        0 <= dt <= SCALE,
        dot_s(v, d) <= max_vel,
    ensures
        dot_s(accelerate_s(d, v, accel, max_vel, dt), d) <= max_vel,
{
    let q = (LIM as int) / 4;
    assert(d.x * d.x >= 0 && d.y * d.y >= 0 && d.z * d.z >= 0) by (nonlinear_arith);
    assert(-SCALE <= d.x <= SCALE) by (nonlinear_arith)
        requires d.x * d.x <= SCALE * SCALE,
    ;
    assert(-SCALE <= d.y <= SCALE) by (nonlinear_arith)
        requires d.y * d.y <= SCALE * SCALE,
    ;
    assert(-SCALE <= d.z <= SCALE) by (nonlinear_arith)
        requires d.z * d.z <= SCALE * SCALE,
    ;
    let n = crate::vec3::dot_wide_s(v, d);
    assert(-q * SCALE <= v.x * d.x <= q * SCALE) by (nonlinear_arith)
        requires -q <= v.x <= q && -SCALE <= d.x <= SCALE,
    ;
    assert(-q * SCALE <= v.y * d.y <= q * SCALE) by (nonlinear_arith)
        requires -q <= v.y <= q && -SCALE <= d.y <= SCALE,
    ;
    assert(-q * SCALE <= v.z * d.z <= q * SCALE) by (nonlinear_arith)
        requires -q <= v.z <= q && -SCALE <= d.z <= SCALE,
    ;
    assert(-3 * q * SCALE <= n <= 3 * q * SCALE);
    crate::fx::lemma_tdiv_mono(n, 3 * q * SCALE, SCALE as int);
    crate::fx::lemma_tdiv_mono(-3 * q * SCALE, n, SCALE as int);
    vstd::arithmetic::div_mod::lemma_div_by_multiple(3 * q, SCALE as int);
    assert(crate::fx::tdiv(3 * q * SCALE, SCALE as int) == 3 * q);
    let proj = crate::fx::tdiv(n, SCALE as int);
    assert(-3 * q <= proj <= 3 * q);
    assert(dot_s(v, d) == proj);
    let acc0 = sat_s(tmul(accel, dt));
    crate::fx::lemma_tmul_bounded(accel, dt);
    vstd::arithmetic::div_mod::lemma_div_pos_is_pos(accel * dt, SCALE as int);
    assert(accel * dt >= 0) by (nonlinear_arith)
        requires accel >= 0 && dt >= 0,
    ;
    assert(0 <= acc0 <= accel);
    let acc = accel_amount_s(proj, acc0, max_vel);
    assert(0 <= acc <= acc0 && proj + acc <= max_vel);
    // the committed gain per component, exact because nothing saturates
    crate::fx::lemma_tmul_bounded(acc, d.x);
    crate::fx::lemma_tmul_bounded(acc, d.y);
    crate::fx::lemma_tmul_bounded(acc, d.z);
    assert(d.x * acc == acc * d.x && d.y * acc == acc * d.y && d.z * acc == acc * d.z)
        by (nonlinear_arith);
    let tx = tmul(d.x, acc);
    let ty = tmul(d.y, acc);
    let tz = tmul(d.z, acc);
    assert(-acc <= tx <= acc && -acc <= ty <= acc && -acc <= tz <= acc);
    let w = accelerate_s(d, v, accel, max_vel, dt);
    assert(w.x == v.x + tx && w.y == v.y + ty && w.z == v.z + tz);
    let n2 = crate::vec3::dot_wide_s(w, d);
    assert(n2 == n + (tx * d.x + ty * d.y + tz * d.z)) by (nonlinear_arith)
        requires
            n2 == w.x * d.x + w.y * d.y + w.z * d.z,
            n == v.x * d.x + v.y * d.y + v.z * d.z,
            w.x == v.x + tx && w.y == v.y + ty && w.z == v.z + tz,
    ;
    lemma_proj_term(d.x, acc);
    lemma_proj_term(d.y, acc);
    lemma_proj_term(d.z, acc);
    assert((tx * d.x + ty * d.y + tz * d.z) * SCALE
        <= (d.x * d.x + d.y * d.y + d.z * d.z) * acc) by (nonlinear_arith)
        requires
            tx * d.x * SCALE <= d.x * d.x * acc,
            ty * d.y * SCALE <= d.y * d.y * acc,
            tz * d.z * SCALE <= d.z * d.z * acc,
    ;
    assert((d.x * d.x + d.y * d.y + d.z * d.z) * acc <= SCALE * SCALE * acc)
        by (nonlinear_arith)
        requires
            d.x * d.x + d.y * d.y + d.z * d.z <= SCALE * SCALE,
            acc >= 0,
    ;
    assert(tx * d.x + ty * d.y + tz * d.z <= acc * SCALE) by (nonlinear_arith)
        requires
            (tx * d.x + ty * d.y + tz * d.z) * SCALE <= SCALE * SCALE * acc,
    ;
    assert(n2 <= n + acc * SCALE);
    crate::fx::lemma_tdiv_mono(n2, n + acc * SCALE, SCALE as int);
    crate::fx::lemma_tdiv_shift(n, acc, SCALE as int);
    assert(crate::fx::tdiv(n2, SCALE as int) <= proj + acc);
    assert(dot_s(w, d) == sat_s(crate::fx::tdiv(n2, SCALE as int)));
}

/// Ground movement: friction, then acceleration.
pub open spec fn move_ground_s(
    accel_dir: V3i,
    prev_velocity: V3i,
    friction: int,
    ground_accel: int,
    max_vel: int,
    dt: int,
) -> V3i {
    let after_friction = apply_friction_s(prev_velocity, sat_s(tmul(friction, dt)));
    accelerate_s(accel_dir, after_friction, ground_accel, max_vel, dt)
}

/// Ground movement: apply friction to the carried velocity, then
/// accelerate along `accel_dir`.
pub fn move_ground(
    accel_dir: &V3,
    prev_velocity: &V3,
    friction: i64,
    ground_accelerate: i64,
    max_velocity_ground: i64,
    dt: i64,
) -> (r: V3)
    requires
        in_lim(accel_dir@),
        in_lim(prev_velocity@),
        0 <= friction <= LIM,
        0 <= ground_accelerate <= LIM,
        0 <= max_velocity_ground <= LIM,
        0 <= dt <= SCALE,
    ensures
        r@ == move_ground_s(accel_dir@, prev_velocity@, friction as int,
            ground_accelerate as int, max_velocity_ground as int, dt as int),
        in_lim(r@),
{
    let fdt = crate::fx::fx_mul(friction, dt);
    proof {
        vstd::arithmetic::div_mod::lemma_div_pos_is_pos(
            friction as int * dt as int, SCALE as int);
        assert(friction as int * dt as int >= 0) by (nonlinear_arith)
            requires friction as int >= 0 && dt as int >= 0,
        ;
    }
    let after_friction = apply_friction(prev_velocity, fdt);
    accelerate(accel_dir, &after_friction, ground_accelerate, max_velocity_ground, dt)
}

/// Air movement: the same acceleration step without ground friction.
pub fn move_air(
    accel_dir: &V3,
    prev_velocity: &V3,
    air_accelerate: i64,
    max_velocity_air: i64,
    dt: i64,
) -> (r: V3)
    requires
        in_lim(accel_dir@),
        in_lim(prev_velocity@),
        0 <= air_accelerate <= LIM,
        0 <= max_velocity_air <= LIM,
        0 <= dt <= SCALE,
    ensures
        r@ == accelerate_s(accel_dir@, prev_velocity@, air_accelerate as int,
            max_velocity_air as int, dt as int),
        in_lim(r@),
{
    accelerate(accel_dir, prev_velocity, air_accelerate, max_velocity_air, dt)
}

/// The active top speed: sprinting swaps the walk speed for the sprint
/// speed.
pub open spec fn top_speed_s(c: ThirdPersonController, sprint: bool) -> int {
    if sprint {
        c.sprint_speed as int
    } else {
        c.movement_speed as int
    }
}

/// The facing after this tick's turn: with input held the facing eases
/// toward the camera-relative input angle along the shortest arc; with no
/// input it does not move.
pub open spec fn facing_after_s(
    pose_yaw: int,
    rotation_speed: int,
    keys: KeyState,
    camera_yaw: int,
    dt: int,
) -> int {
    let x = axis_s(keys.right, keys.left);
    let y = axis_s(keys.forward, keys.back);
    if x == 0 && y == 0 {
        pose_yaw
    } else {
        let target = wrap_s(input_angle_s(x, y) + camera_yaw - HALF_PI_FX);
        let s = clamp_s(sat_s(tmul(rotation_speed, dt)), 0, SCALE as int);
        turn_toward_s(pose_yaw, target, s)
    }
}

/// The horizontal unit vector of a facing angle.
pub open spec fn accel_dir_s(yaw: int) -> V3i {
    V3i { x: sin_s(yaw), y: 0, z: cos_s(yaw) }
}

/// The velocity this tick proposes, before any collision response.
pub open spec fn propose_velocity_s(
    c: ThirdPersonController,
    pose_yaw: int,
    keys: KeyState,
    camera_yaw: int,
    dt: int,
) -> V3i {
    let x = axis_s(keys.right, keys.left);
    let y = axis_s(keys.forward, keys.back);
    let dir = if x == 0 && y == 0 {
        zero_s()
    } else {
        accel_dir_s(facing_after_s(pose_yaw, c.rotation_speed as int, keys, camera_yaw, dt))
    };
    move_ground_s(dir, c.velocity@, c.friction as int, top_speed_s(c, keys.sprint),
        c.max_speed as int, dt)
}

/// First half of a controller tick: the new facing and the proposed
/// velocity.  The host may shape-cast along the proposal before
/// `controller_apply` commits it.
pub fn controller_propose(
    c: &ThirdPersonController,
    pose: &Pose,
    keys: &KeyState,
    camera_yaw: i64,
    dt: i64,
) -> (r: (i64, V3))
    requires
        c.wf(),
        pose.wf(),
        0 <= dt <= SCALE,
    ensures
        r.0 as int == facing_after_s(pose.yaw as int, c.rotation_speed as int, *keys,
            camera_yaw as int, dt as int),
        0 <= r.0 < TAU_FX,
        r.1@ == propose_velocity_s(*c, pose.yaw as int, *keys, camera_yaw as int, dt as int),
        in_lim(r.1@),
{
    let x = get_axis(keys.right, keys.left);
    let y = get_axis(keys.forward, keys.back);
    let (new_yaw, dir) = if x == 0 && y == 0 {
        (pose.yaw, V3 { x: 0, y: 0, z: 0 })
    } else {
        let base = input_angle(x, y);
        let target = crate::angle::wrap_wide(
            base as i128 + camera_yaw as i128 - HALF_PI_FX as i128);
        let s = crate::fx::fx_clamp(crate::fx::fx_mul(c.rotation_speed, dt), 0, SCALE);
        let ny = crate::angle::turn_toward(pose.yaw, target, s);
        let dir_x = crate::angle::sin_fx(ny);
        let dir_z = crate::angle::cos_fx(ny);
        (ny, V3 { x: dir_x, y: 0, z: dir_z })
    };
    let top = if keys.sprint {
        c.sprint_speed
    } else {
        c.movement_speed
    };
    let proposed = move_ground(&dir, &c.velocity, c.friction, top, c.max_speed, dt);
    (new_yaw, proposed)
}

/// The committed velocity: the proposal, scaled by a time-of-impact
/// clamped into `[0, SCALE]` when the host's collision query reported one.
pub open spec fn clamped_velocity_s(proposed: V3i, toi: Option<i64>) -> V3i {
    match toi {
        Option::Some(t) => scale_s(proposed, clamp_s(t as int, 0, SCALE as int)),
        Option::None => proposed,
    }
}

/// Second half of a controller tick: commit the proposal.  A reported
/// time-of-impact scales the whole tick's motion, so the entity stops at
/// first contact instead of tunnelling; the position then advances by the
/// committed velocity.
pub fn controller_apply(
    c: &mut ThirdPersonController,
    pose: &mut Pose,
    new_yaw: i64,
    proposed: &V3,
    toi: Option<i64>,
)
    requires
        old(pose).wf(),
        0 <= new_yaw < TAU_FX,
        in_lim(proposed@),
    ensures
        final(c).velocity@ == clamped_velocity_s(proposed@, toi),
        final(c).id == old(c).id,
        final(c).rotation_speed == old(c).rotation_speed,
        final(c).movement_speed == old(c).movement_speed,
        final(c).sprint_speed == old(c).sprint_speed,
        final(c).max_speed == old(c).max_speed,
        final(c).friction == old(c).friction,
        final(pose).position@ == add_s(old(pose).position@,
            clamped_velocity_s(proposed@, toi)),
        final(pose).yaw == new_yaw,
        final(pose).pitch == old(pose).pitch,
        final(pose).wf(),
        old(c).wf() ==> final(c).wf(),
{
    let vel = match toi {
        Option::Some(t) => crate::vec3::v3_scale(proposed, crate::fx::fx_clamp(t, 0, SCALE)),
        Option::None => *proposed,
    };
    c.velocity = vel;
    pose.position = crate::vec3::v3_add(&pose.position, &vel);
    pose.yaw = new_yaw;
}

/// One full controller tick with no collision service: propose, then
/// commit unclamped.
pub fn controller_step(
    c: &mut ThirdPersonController,
    pose: &mut Pose,
    keys: &KeyState,
    camera_yaw: i64,
    dt: i64,
)
    requires
        old(c).wf(),
        old(pose).wf(),
        0 <= dt <= SCALE,
    ensures
        final(c).velocity@ == propose_velocity_s(*old(c), old(pose).yaw as int, *keys,
            camera_yaw as int, dt as int),
        final(c).id == old(c).id,
        final(c).rotation_speed == old(c).rotation_speed,
        final(c).movement_speed == old(c).movement_speed,
        final(c).sprint_speed == old(c).sprint_speed,
        final(c).max_speed == old(c).max_speed,
        final(c).friction == old(c).friction,
        final(pose).position@ == add_s(old(pose).position@, final(c).velocity@),
        final(pose).yaw as int == facing_after_s(old(pose).yaw as int,
            old(c).rotation_speed as int, *keys, camera_yaw as int, dt as int),
        final(pose).pitch == old(pose).pitch,
        final(c).wf(),
        final(pose).wf(),
{
    let (new_yaw, proposed) = controller_propose(c, pose, keys, camera_yaw, dt);
    controller_apply(c, pose, new_yaw, &proposed, Option::None);
}

/// One controller beside its current transform.
#[derive(Clone, Copy, Debug, PartialEq, Eq, Structural)]
pub struct ControllerEntity {
    pub controller: ThirdPersonController,
    pub pose: Pose,
}

/// The current yaw of the first camera rig following the given id, if any.
pub open spec fn first_cam_yaw_s(cams: Seq<crate::camera::CameraEntity>, id: u64) -> Option<
    i64,
>
    decreases cams.len(),
{
    if cams.len() == 0 {
        Option::None
    } else if cams[0].rig.target_id == id {
        Option::Some(cams[0].pose.yaw)
    } else {
        first_cam_yaw_s(cams.drop_first(), id)
    }
}

/// Look up the yaw of the first camera rig whose `target_id` matches.
pub fn find_camera_yaw(cams: &Vec<crate::camera::CameraEntity>, id: u64) -> (r: Option<i64>)
    ensures
        r == first_cam_yaw_s(cams@, id),
{
    let n = cams.len();
    let mut i: usize = 0;
    proof {
        assert(cams@.skip(0) =~= cams@);
    }
    while i < n
        invariant
            i <= n,
            n == cams@.len(),
            first_cam_yaw_s(cams@, id) == first_cam_yaw_s(cams@.skip(i as int), id),
        decreases n - i,
    {
        if cams[i].rig.target_id == id {
            return Some(cams[i].pose.yaw);
        }
        proof {
            assert(cams@.skip(i as int).drop_first() =~= cams@.skip(i as int + 1));
        }
        i = i + 1;
    }
    proof {
        assert(cams@.skip(n as int) =~= Seq::<crate::camera::CameraEntity>::empty());
    }
    None
}

/// How one fixed tick carries a controller entity from `pre` to `post`:
/// with no camera rig bound to it the entity is untouched; otherwise it
/// takes one full movement step relative to that rig's yaw.
pub open spec fn controller_stepped(
    pre: ControllerEntity,
    post: ControllerEntity,
    cams: Seq<crate::camera::CameraEntity>,
    keys: KeyState,
    dt: int,
) -> bool {
    match first_cam_yaw_s(cams, pre.controller.id) {
        Option::None => post == pre,
        Option::Some(cy) => {
            &&& post.controller.velocity@ == propose_velocity_s(pre.controller,
                pre.pose.yaw as int, keys, cy as int, dt)
            &&& post.controller.id == pre.controller.id
            &&& post.controller.rotation_speed == pre.controller.rotation_speed
            &&& post.controller.movement_speed == pre.controller.movement_speed
            &&& post.controller.sprint_speed == pre.controller.sprint_speed
            &&& post.controller.max_speed == pre.controller.max_speed
            &&& post.controller.friction == pre.controller.friction
            &&& post.pose.position@ == add_s(pre.pose.position@,
                post.controller.velocity@)
            &&& post.pose.yaw as int == facing_after_s(pre.pose.yaw as int,
                pre.controller.rotation_speed as int, keys, cy as int, dt)
            &&& post.pose.pitch == pre.pose.pitch
        },
    }
}

/// Advance every controller by one fixed tick (no collision service).
///
/// Each controller moves relative to the first camera rig whose
/// `target_id` matches its id; one with no rig bound to it stays exactly
/// as it was this tick.
pub fn controller_system(
    entities: &mut Vec<ControllerEntity>,
    cameras: &Vec<crate::camera::CameraEntity>,
    keys: &KeyState,
    dt: i64,
)
    requires
        forall|j: int| 0 <= j < old(entities)@.len()
            ==> (#[trigger] old(entities)@[j]).controller.wf()
                && old(entities)@[j].pose.wf(),
        0 <= dt <= SCALE,
    ensures
        final(entities)@.len() == old(entities)@.len(),
        forall|j: int| 0 <= j < old(entities)@.len()
            ==> controller_stepped(old(entities)@[j], #[trigger] final(entities)@[j],
                cameras@, *keys, dt as int),
        forall|j: int| 0 <= j < final(entities)@.len()
            ==> (#[trigger] final(entities)@[j]).controller.wf()
                && final(entities)@[j].pose.wf(),
{
    let n = entities.len();
    let mut i: usize = 0;
    while i < n
        invariant
            i <= n,
            n == entities@.len(),
            entities@.len() == old(entities)@.len(),
            forall|j: int| 0 <= j < old(entities)@.len()
                ==> (#[trigger] old(entities)@[j]).controller.wf()
                    && old(entities)@[j].pose.wf(),
            0 <= dt <= SCALE,
            forall|j: int| 0 <= j < i ==> controller_stepped(old(entities)@[j],
                #[trigger] entities@[j], cameras@, *keys, dt as int),
            forall|j: int| 0 <= j < i ==> (#[trigger] entities@[j]).controller.wf()
                && entities@[j].pose.wf(),
            forall|j: int| i <= j < n ==> #[trigger] entities@[j] == old(entities)@[j],
        decreases n - i,
    {
        proof {
            assert(entities@[i as int] == old(entities)@[i as int]);
            assert(old(entities)@[i as int].controller.wf()
                && old(entities)@[i as int].pose.wf());
        }
        match find_camera_yaw(cameras, entities[i].controller.id) {
            Option::Some(cy) => {
                let mut e = entities[i];
                controller_step(&mut e.controller, &mut e.pose, keys, cy, dt);
                entities.set(i, e);
            },
            Option::None => {},
        }
        i = i + 1;
    }
}

/// A mathematical vector whose components fit storage, as a `V3`.
pub open spec fn v3_of_s(v: V3i) -> V3 {
    V3 { x: v.x as i64, y: v.y as i64, z: v.z as i64 }
}

/// The transition one fixed tick performs on a controller entity with no
/// collision service: the functional form of `controller_stepped`.
pub open spec fn entity_step_s(
    e: ControllerEntity,
    cams: Seq<crate::camera::CameraEntity>,
    keys: KeyState,
    dt: int,
) -> ControllerEntity {
    match first_cam_yaw_s(cams, e.controller.id) {
        Option::None => e,
        Option::Some(cy) => {
            let vel = propose_velocity_s(e.controller, e.pose.yaw as int, keys, cy as int,
                dt);
            ControllerEntity {
                controller: ThirdPersonController {
                    velocity: v3_of_s(vel),
                    ..e.controller
                },
                pose: Pose {
                    position: v3_of_s(add_s(e.pose.position@, vel)),
                    yaw: facing_after_s(e.pose.yaw as int, e.controller.rotation_speed as int,
                        keys, cy as int, dt) as i64,
                    pitch: e.pose.pitch,
                },
            }
        },
    }
}

/// A proposed velocity is always storable: its components saturate.
pub proof fn lemma_propose_in_lim(
    c: ThirdPersonController,
    pose_yaw: int,
    keys: KeyState,
    camera_yaw: int,
    dt: int,
)
    ensures
        in_lim(propose_velocity_s(c, pose_yaw, keys, camera_yaw, dt)),
{
}

/// The functional step satisfies the per-entity contract of
/// `controller_system`.
pub proof fn lemma_entity_step_matches(
    e: ControllerEntity,
    cams: Seq<crate::camera::CameraEntity>,
    keys: KeyState,
    dt: int,
)
    requires
        e.controller.wf(),
        e.pose.wf(),
        0 <= dt <= SCALE,
    ensures
        controller_stepped(e, entity_step_s(e, cams, keys, dt), cams, keys, dt),
{
    match first_cam_yaw_s(cams, e.controller.id) {
        Option::None => {},
        Option::Some(cy) => {
            lemma_propose_in_lim(e.controller, e.pose.yaw as int, keys, cy as int, dt);
            let fy = facing_after_s(e.pose.yaw as int, e.controller.rotation_speed as int,
                keys, cy as int, dt);
            let x = axis_s(keys.right, keys.left);
            let y = axis_s(keys.forward, keys.back);
            if x == 0 && y == 0 {
                assert(fy == e.pose.yaw as int);
            } else {
                crate::angle::lemma_wrap_in_range(e.pose.yaw
                    + crate::fx::tdiv(crate::angle::signed_diff_s(
                        wrap_s(input_angle_s(x, y) + cy - HALF_PI_FX), e.pose.yaw as int)
                        * clamp_s(sat_s(tmul(e.controller.rotation_speed as int, dt)), 0,
                            SCALE as int), SCALE as int));
                assert(0 <= fy < TAU_FX);
            }
        },
    }
}

/// A controller entity after `n` fixed ticks.
pub open spec fn entity_iter_s(
    e: ControllerEntity,
    cams: Seq<crate::camera::CameraEntity>,
    keys: KeyState,
    dt: int,
    n: nat,
) -> ControllerEntity
    decreases n,
{
    if n == 0 {
        e
    } else {
        entity_iter_s(entity_step_s(e, cams, keys, dt), cams, keys, dt, (n - 1) as nat)
    }
}

/// With no keys held and the velocity at rest, one tick changes nothing:
/// not the position, not the facing, not the velocity.
pub proof fn lemma_rest_entity_fixed(
    e: ControllerEntity,
    cams: Seq<crate::camera::CameraEntity>,
    keys: KeyState,
    dt: int,
)
    requires
        e.controller.velocity@ == zero_s(),
        in_lim(e.pose.position@),
        !keys.forward && !keys.back && !keys.left && !keys.right,
        0 <= dt <= SCALE,
    ensures
        entity_step_s(e, cams, keys, dt) == e,
{
    match first_cam_yaw_s(cams, e.controller.id) {
        Option::None => {},
        Option::Some(cy) => {
            let vel = propose_velocity_s(e.controller, e.pose.yaw as int, keys, cy as int,
                dt);
            lemma_friction_fixes_rest(sat_s(tmul(e.controller.friction as int, dt)));
            let acc0 = sat_s(tmul(top_speed_s(e.controller, keys.sprint), dt));
            let proj = dot_s(zero_s(), zero_s());
            assert(crate::vec3::dot_wide_s(zero_s(), zero_s()) == 0) by (nonlinear_arith);
            let acc = accel_amount_s(proj, acc0, e.controller.max_speed as int);
            vstd::arithmetic::div_mod::lemma_div_of0(SCALE as int);
            assert(0 * acc == 0) by (nonlinear_arith);
            assert(tmul(0, acc) == 0);
            assert(crate::vec3::scale_s(zero_s(), acc) == zero_s());
            assert(vel == zero_s());
            assert(v3_of_s(zero_s()) == e.controller.velocity);
            assert(add_s(e.pose.position@, zero_s()) == e.pose.position@);
            assert(v3_of_s(e.pose.position@) == e.pose.position);
            assert(entity_step_s(e, cams, keys, dt) == e);
        },
    }
}

/// Round trip: with zero input and zero initial velocity the entity —
/// position included — is unchanged after any number of ticks.
pub proof fn lemma_rest_entity_forever(
    e: ControllerEntity,
    cams: Seq<crate::camera::CameraEntity>,
    keys: KeyState,
    dt: int,
    n: nat,
)
    requires
        e.controller.velocity@ == zero_s(),
        in_lim(e.pose.position@),
        !keys.forward && !keys.back && !keys.left && !keys.right,
        0 <= dt <= SCALE,
    ensures
        entity_iter_s(e, cams, keys, dt, n) == e,
    decreases n,
{
    if n > 0 {
        lemma_rest_entity_fixed(e, cams, keys, dt);
        lemma_rest_entity_forever(e, cams, keys, dt, (n - 1) as nat);
    }
}

/// Accumulates frame time and releases it as whole fixed simulation steps.
#[derive(Clone, Copy, Debug, PartialEq, Eq, Structural)]
pub struct FixedUpdateTimer {
    pub acc: i64,
    pub step: i64,
}

impl FixedUpdateTimer {
    /// Well-formed: a positive step no longer than a second, with less
    /// than one step banked.
    pub open spec fn wf(&self) -> bool {
        &&& 0 < self.step <= SCALE
        &&& 0 <= self.acc < self.step
    }
}

impl Default for FixedUpdateTimer {
    /// Fifty simulation steps per second.
    fn default() -> (r: Self)
        ensures
            r.step == SCALE / 50,
            r.acc == 0,
            r.wf(),
    {
        FixedUpdateTimer { acc: 0, step: 20_000 }
    }
}

impl FixedUpdateTimer {
    /// Bank `dt` and return how many whole fixed steps elapsed.
    pub fn advance(&mut self, dt: i64) -> (steps: u64)
        requires
            old(self).wf(),
            0 <= dt <= LIM,
        ensures
            final(self).wf(),
            final(self).step == old(self).step,
            steps as int == (old(self).acc + dt) / (old(self).step as int),
            final(self).acc as int == (old(self).acc + dt) % (old(self).step as int),
    {
        let total: i64 = self.acc + dt;
        let steps: u64 = (total as u64) / (self.step as u64);
        self.acc = ((total as u64) % (self.step as u64)) as i64;
        proof {
            vstd::arithmetic::div_mod::lemma_mod_division_less_than_divisor(
                total as int, self.step as int);
        }
        steps
    }
}

} // verus!


