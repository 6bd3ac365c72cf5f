//! Third-person orbital camera rig.
//!
//! Per tick the rig folds the frame's pointer deltas into its pitch and
//! yaw — pitch clamped away from the poles, yaw wrapped to a full turn —
//! then looks up the controller it follows and places itself on the orbit
//! sphere around the ground point under that target.  Without a matching
//! target the rig's angles still update but its transform is left alone.

use vstd::prelude::*;
use crate::angle::{cos_s, sin_s, wrap_s, HALF_PI_FX, TAU_FX};
use crate::controller::ControllerEntity;
use crate::fx::{clamp_s, sat_s, tmul, SCALE, LIM};
use crate::pose::Pose;
use crate::vec3::{add_s, in_lim, rot_x_s, rot_y_s, V3, V3i};

verus! {

/// Keeps the lower pitch bound this far above the south pole.
pub const PITCH_EPS_UPPER: i64 = 300_000;

/// Keeps the upper pitch bound this far below the north pole.
pub const PITCH_EPS_LOWER: i64 = 1_400_000;

/// Least pitch a rig can take.
pub const PITCH_MIN_FX: i64 = -HALF_PI_FX + PITCH_EPS_UPPER;

/// Greatest pitch a rig can take.
pub const PITCH_MAX_FX: i64 = HALF_PI_FX - PITCH_EPS_LOWER;

/// Orbit parameters and current angles of one camera rig.
///
/// `target_id` names the controller this rig follows; `sensitivity`
/// converts raw pointer ticks into micro-radians; `distance` is the orbit
/// radius; the offsets move the look point and the final position.
/// `min_height` is a reserved clamp floor that the update does not yet
/// apply.
#[derive(Clone, Copy, Debug, PartialEq, Eq, Structural)]
pub struct ThirdPersonCamera {
    pub target_id: u64,
    pub pitch: i64,
    pub yaw: i64,
    pub sensitivity: i64,
    pub distance: i64,
    pub min_height: i64,
    pub target_offset: V3,
    pub position_offset: V3,
}

impl ThirdPersonCamera {
    /// Well-formed: angles inside their ranges, scalars storable.
    pub open spec fn wf(&self) -> bool {
        &&& PITCH_MIN_FX <= self.pitch <= PITCH_MAX_FX
        &&& 0 <= self.yaw < TAU_FX
        &&& 0 <= self.sensitivity <= LIM
        &&& 0 <= self.distance <= LIM
        &&& 0 <= self.min_height <= LIM
        &&& in_lim(self.target_offset@)
        &&& in_lim(self.position_offset@)
    }
}

impl Default for ThirdPersonCamera {
    /// The stock rig: a thousandth of a radian per pointer tick, eight
    /// units behind the target.
    fn default() -> (r: Self)
        ensures
            r.target_id == 0,
            r.pitch == 0,
            r.yaw == 0,
            r.sensitivity == SCALE / 1000,
            r.distance == 8 * SCALE,
            r.min_height == SCALE / 5,
            r.target_offset@ == crate::vec3::zero_s(),
            r.position_offset@ == crate::vec3::zero_s(),
            r.wf(),
    {
        ThirdPersonCamera {
            target_id: 0,
            pitch: 0,
            yaw: 0,
            sensitivity: 1000,
            distance: 8_000_000,
            min_height: 200_000,
            target_offset: V3 { x: 0, y: 0, z: 0 },
            position_offset: V3 { x: 0, y: 0, z: 0 },
        }
    }
}

/// One pointer-motion event: raw device ticks for the frame.
#[derive(Clone, Copy, Debug, PartialEq, Eq, Structural)]
pub struct MouseDelta {
    pub dx: i64,
    pub dy: i64,
}

/// Sum of the first `n` horizontal deltas.
pub open spec fn sum_dx_s(deltas: Seq<MouseDelta>, n: int) -> int
    decreases n,
{
    if n <= 0 {
        0
    } else {
        sum_dx_s(deltas, n - 1) + deltas[n - 1].dx
    }
}

/// Sum of the first `n` vertical deltas.
pub open spec fn sum_dy_s(deltas: Seq<MouseDelta>, n: int) -> int
    decreases n,
{
    if n <= 0 {
        0
    } else {
        sum_dy_s(deltas, n - 1) + deltas[n - 1].dy
    }
}

/// Fold all pointer events of the frame into one delta (a plain sum, so
/// the host's event order cannot matter), saturating at the storage
/// bound.
pub fn accumulate_delta(deltas: &Vec<MouseDelta>) -> (r: (i64, i64))
    ensures
        r.0 as int == sat_s(sum_dx_s(deltas@, deltas@.len() as int)),
        r.1 as int == sat_s(sum_dy_s(deltas@, deltas@.len() as int)),
{
    let mut ax: i128 = 0;
    let mut ay: i128 = 0;
    let n = deltas.len();
    let mut i: usize = 0;
    while i < n
        invariant
            i <= n,
            n == deltas@.len(),
            ax as int == sum_dx_s(deltas@, i as int),
            ay as int == sum_dy_s(deltas@, i as int),
            -(i as int) * 0x8000000000000000 <= ax as int <= (i as int) * 0x8000000000000000,
            -(i as int) * 0x8000000000000000 <= ay as int <= (i as int) * 0x8000000000000000,
        decreases n - i,
    {
        let d = deltas[i];
        ax = ax + d.dx as i128;
        ay = ay + d.dy as i128;
        i = i + 1;
    }
    (crate::fx::sat64(ax), crate::fx::sat64(ay))
}

/// Pitch after one tick: the scaled vertical delta is subtracted and the
/// result clamped strictly inside the poles.
pub open spec fn pitch_after_s(pitch: int, sensitivity: int, dy: int) -> int {
    clamp_s(pitch - sat_s(tmul(sensitivity, dy)), PITCH_MIN_FX as int, PITCH_MAX_FX as int)
}

/// Yaw after one tick: the scaled horizontal delta is subtracted and the
/// result wrapped into `[0, TAU_FX)`.
pub open spec fn yaw_after_s(yaw: int, sensitivity: int, dx: int) -> int {
    wrap_s(yaw - sat_s(tmul(sensitivity, dx)))
}

/// However the pitch started and however large the accumulated delta,
/// one update leaves it inside the clamp range, strictly between the
/// poles.
pub proof fn lemma_pitch_in_bounds(pitch: int, sensitivity: int, dy: int)
    ensures
        PITCH_MIN_FX <= pitch_after_s(pitch, sensitivity, dy) <= PITCH_MAX_FX,
        -HALF_PI_FX < pitch_after_s(pitch, sensitivity, dy) < HALF_PI_FX,
{
}

/// Pitch after a whole sequence of updates, one per tick.
pub open spec fn pitch_iter_s(pitch: int, sensitivity: int, deltas: Seq<int>) -> int
    decreases deltas.len(),
{
    if deltas.len() == 0 {
        pitch
    } else {
        pitch_iter_s(pitch_after_s(pitch, sensitivity, deltas[0]), sensitivity,
            deltas.drop_first())
    }
}

/// Repeated updates, however extreme each tick's delta, never push the
/// pitch out of the clamp range.
pub proof fn lemma_pitch_iter_in_bounds(pitch: int, sensitivity: int, deltas: Seq<int>)
    requires
        deltas.len() > 0,
    ensures
        PITCH_MIN_FX <= pitch_iter_s(pitch, sensitivity, deltas) <= PITCH_MAX_FX,
        -HALF_PI_FX < pitch_iter_s(pitch, sensitivity, deltas) < HALF_PI_FX,
    decreases deltas.len(),
{
    let first = pitch_after_s(pitch, sensitivity, deltas[0]);
    lemma_pitch_in_bounds(pitch, sensitivity, deltas[0]);
    assert(pitch_iter_s(pitch, sensitivity, deltas)
        == pitch_iter_s(first, sensitivity, deltas.drop_first()));
    if deltas.len() > 1 {
        lemma_pitch_iter_in_bounds(first, sensitivity, deltas.drop_first());
    } else {
        assert(deltas.drop_first().len() == 0);
        assert(pitch_iter_s(first, sensitivity, deltas.drop_first()) == first);
    }
}

/// After any update the yaw lies in `[0, TAU_FX)`, whatever the delta,
/// including whole extra turns.
pub proof fn lemma_yaw_in_range(yaw: int, sensitivity: int, dx: int)
    ensures
        0 <= yaw_after_s(yaw, sensitivity, dx) < TAU_FX,
{
    crate::angle::lemma_wrap_in_range(yaw - sat_s(tmul(sensitivity, dx)));
}

/// The ground point under a target position: its vertical component
/// zeroed.
pub open spec fn pivot_s(target_pos: V3i) -> V3i {
    V3i { x: target_pos.x, y: 0, z: target_pos.z }
}

/// Where the rig places the camera: the look point is the ground point
/// under the target plus the look-point offset; the orbit arm starts
/// `distance` behind it, is tilted by pitch, swung by yaw (yaw composed
/// outside pitch, so the rig never rolls), and the world-space position
/// offset is added last.
pub open spec fn camera_position_s(
    pitch: int,
    yaw: int,
    distance: int,
    target_offset: V3i,
    position_offset: V3i,
    target_pos: V3i,
) -> V3i {
    let look = add_s(pivot_s(target_pos), target_offset);
    let arm = V3i { x: 0, y: 0, z: distance };
    let tilted = rot_x_s(arm, cos_s(pitch), sin_s(pitch));
    let turned = rot_y_s(tilted, cos_s(yaw), sin_s(yaw));
    add_s(add_s(look, turned), position_offset)
}

/// Place the camera on its orbit around the target.
pub fn camera_place(rig: &ThirdPersonCamera, target_pos: &V3) -> (r: V3)
    ensures
        r@ == camera_position_s(rig.pitch as int, rig.yaw as int, rig.distance as int,
            rig.target_offset@, rig.position_offset@, target_pos@),
        in_lim(r@),
{
    let pivot = V3 { x: target_pos.x, y: 0, z: target_pos.z };
    let look = crate::vec3::v3_add(&pivot, &rig.target_offset);
    let arm = V3 { x: 0, y: 0, z: rig.distance };
    let cp = crate::angle::cos_fx(rig.pitch);
    let sp = crate::angle::sin_fx(rig.pitch);
    let tilted = crate::vec3::v3_rot_x(&arm, cp, sp);
    let cy = crate::angle::cos_fx(rig.yaw);
    let sy = crate::angle::sin_fx(rig.yaw);
    let turned = crate::vec3::v3_rot_y(&tilted, cy, sy);
    crate::vec3::v3_add(&crate::vec3::v3_add(&look, &turned), &rig.position_offset)
}

/// The position of the first controller whose id matches, if any.
pub open spec fn first_target_s(targets: Seq<ControllerEntity>, id: u64) -> Option<V3>
    decreases targets.len(),
{
    if targets.len() == 0 {
        Option::None
    } else if targets[0].controller.id == id {
        Option::Some(targets[0].pose.position)
    } else {
        first_target_s(targets.drop_first(), id)
    }
}

/// Look up the first controller with the given id.
pub fn find_target(targets: &Vec<ControllerEntity>, id: u64) -> (r: Option<V3>)
    ensures
        r == first_target_s(targets@, id),
{
    let n = targets.len();
    let mut i: usize = 0;
    proof {
        assert(targets@.skip(0) =~= targets@);
    }
    while i < n
        invariant
            i <= n,
            n == targets@.len(),
            first_target_s(targets@, id) == first_target_s(targets@.skip(i as int), id),
        decreases n - i,
    {
        if targets[i].controller.id == id {
            return Some(targets[i].pose.position);
        }
        proof {
            assert(targets@.skip(i as int).drop_first() =~= targets@.skip(i as int + 1));
        }
        i = i + 1;
    }
    proof {
        assert(targets@.skip(n as int) =~= Seq::<ControllerEntity>::empty());
    }
    None
}

/// One camera rig beside its current transform.
#[derive(Clone, Copy, Debug, PartialEq, Eq, Structural)]
pub struct CameraEntity {
    pub rig: ThirdPersonCamera,
    pub pose: Pose,
}

/// How one focused tick carries a camera entity from `pre` to `post`:
/// angles always take the frame's delta; the transform moves only when a
/// matching target exists, else it is untouched.
pub open spec fn camera_stepped(
    pre: CameraEntity,
    post: CameraEntity,
    dx: int,
    dy: int,
    targets: Seq<ControllerEntity>,
) -> bool {
    let new_pitch = pitch_after_s(pre.rig.pitch as int, pre.rig.sensitivity as int, dy);
    let new_yaw = yaw_after_s(pre.rig.yaw as int, pre.rig.sensitivity as int, dx);
    &&& post.rig.pitch as int == new_pitch
    &&& post.rig.yaw as int == new_yaw
    &&& post.rig.target_id == pre.rig.target_id
    &&& post.rig.sensitivity == pre.rig.sensitivity
    &&& post.rig.distance == pre.rig.distance
    &&& post.rig.min_height == pre.rig.min_height
    &&& post.rig.target_offset == pre.rig.target_offset
    &&& post.rig.position_offset == pre.rig.position_offset
    &&& match first_target_s(targets, pre.rig.target_id) {
        Option::None => post.pose == pre.pose,
        Option::Some(tp) => {
            &&& post.pose.position@ == camera_position_s(new_pitch, new_yaw,
                pre.rig.distance as int, pre.rig.target_offset@, pre.rig.position_offset@,
                tp@)
            &&& post.pose.yaw as int == new_yaw
            &&& post.pose.pitch as int == new_pitch
        },
    }
}

/// Advance one camera entity by one focused tick with the given summed
/// pointer delta.
pub fn camera_update(cam: &mut CameraEntity, dx: i64, dy: i64, targets: &Vec<ControllerEntity>)
    requires
        old(cam).rig.wf(),
        old(cam).pose.wf(),
    ensures
        camera_stepped(*old(cam), *final(cam), dx as int, dy as int, targets@),
        final(cam).rig.wf(),
        final(cam).pose.wf(),
{
    let scaled_x = crate::fx::fx_mul(cam.rig.sensitivity, dx);
    let scaled_y = crate::fx::fx_mul(cam.rig.sensitivity, dy);
    let p: i128 = cam.rig.pitch as i128 - scaled_y as i128;
    cam.rig.pitch = if p < PITCH_MIN_FX as i128 {
        PITCH_MIN_FX
    } else if p > PITCH_MAX_FX as i128 {
        PITCH_MAX_FX
    } else {
        p as i64
    };
    cam.rig.yaw = crate::angle::wrap_wide(cam.rig.yaw as i128 - scaled_x as i128);
    match find_target(targets, cam.rig.target_id) {
        Option::Some(tp) => {
            cam.pose.position = camera_place(&cam.rig, &tp);
            cam.pose.yaw = cam.rig.yaw;
            cam.pose.pitch = cam.rig.pitch;
        },
        Option::None => {},
    }
}

/// Advance every camera rig by one tick.
///
/// Without window focus nothing moves.  With focus, the frame's pointer
/// events are summed once and every rig takes the same delta, scaled by
/// its own sensitivity; each rig then follows the first controller whose
/// id matches its `target_id`, or leaves its transform unchanged when
/// none does.
pub fn camera_system(
    focused: bool,
    deltas: &Vec<MouseDelta>,
    cams: &mut Vec<CameraEntity>,
    targets: &Vec<ControllerEntity>,
)
    requires
        forall|j: int| 0 <= j < old(cams)@.len() ==> (#[trigger] old(cams)@[j]).rig.wf()
            && old(cams)@[j].pose.wf(),
    ensures
        final(cams)@.len() == old(cams)@.len(),
        !focused ==> final(cams)@ == old(cams)@,
        focused ==> forall|j: int| 0 <= j < old(cams)@.len()
            ==> camera_stepped(old(cams)@[j], #[trigger] final(cams)@[j],
                sat_s(sum_dx_s(deltas@, deltas@.len() as int)),
                sat_s(sum_dy_s(deltas@, deltas@.len() as int)), targets@),
        forall|j: int| 0 <= j < final(cams)@.len() ==> (#[trigger] final(cams)@[j]).rig.wf()
            && final(cams)@[j].pose.wf(),
{
    if !focused {
        return ;
    }
    let (dx, dy) = accumulate_delta(deltas);
    let n = cams.len();
    let mut i: usize = 0;
    while i < n
        invariant
            i <= n,
            n == cams@.len(),
            cams@.len() == old(cams)@.len(),
            forall|j: int| 0 <= j < old(cams)@.len() ==> (#[trigger] old(cams)@[j]).rig.wf()
                && old(cams)@[j].pose.wf(),
            dx as int == sat_s(sum_dx_s(deltas@, deltas@.len() as int)),
            dy as int == sat_s(sum_dy_s(deltas@, deltas@.len() as int)),
            forall|j: int| 0 <= j < i ==> camera_stepped(old(cams)@[j],
                #[trigger] cams@[j], dx as int, dy as int, targets@),
            forall|j: int| 0 <= j < i ==> (#[trigger] cams@[j]).rig.wf()
                && cams@[j].pose.wf(),
            forall|j: int| i <= j < n ==> #[trigger] cams@[j] == old(cams)@[j],
        decreases n - i,
    {
        let mut e = cams[i];
        proof {
            assert(cams@[i as int] == old(cams)@[i as int]);
            assert(old(cams)@[i as int].rig.wf() && old(cams)@[i as int].pose.wf());
        }
        camera_update(&mut e, dx, dy, targets);
        cams.set(i, e);
        i = i + 1;
    }
}

} // verus!
