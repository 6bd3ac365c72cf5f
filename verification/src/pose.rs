//! Entity transforms.
//!
//! The host's scene graph keeps full transforms; this crate reads and
//! writes only what the movement model needs: a world position and an
//! orientation given as yaw and pitch angles about the world axes.  The
//! host turns these back into its own rotation representation.

use vstd::prelude::*;
use crate::angle::TAU_FX;
use crate::vec3::{V3, in_lim};

verus! {

/// A position plus a yaw/pitch orientation, all fixed-point.
#[derive(Clone, Copy, Debug, PartialEq, Eq, Structural)]
pub struct Pose {
    pub position: V3,
    pub yaw: i64,
    pub pitch: i64,
}

impl Pose {
    /// Well-formed: the position is storable and the angles are wrapped.
    pub open spec fn wf(&self) -> bool {
        &&& in_lim(self.position@)
        &&& 0 <= self.yaw < TAU_FX
        &&& -TAU_FX < self.pitch < TAU_FX
    }

    /// The identity pose at the origin.
    pub fn identity() -> (r: Pose)
        ensures
            r.position@ == crate::vec3::zero_s(),
            r.yaw == 0,
            r.pitch == 0,
            r.wf(),
    {
        Pose { position: V3 { x: 0, y: 0, z: 0 }, yaw: 0, pitch: 0 }
    }
}

} // verus!
