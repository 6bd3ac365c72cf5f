//! Third-person camera rig and ground-movement character controller.
//!
//! The host engine owns the scene, the input devices and the clock; once per
//! simulation tick it hands this crate plain values (key state, pointer
//! deltas, entity poses, a time step) and applies the poses and velocities
//! that come back.  All quantities are fixed-point scalars: an `i64` counts
//! micro-units, so `1_000_000` raw is one world unit, one radian, or one
//! second.  Every update is a total, deterministic function of its inputs;
//! out-of-range intermediate values saturate instead of overflowing, and no
//! update ever panics.

pub mod angle;
pub mod camera;
pub mod controller;
pub mod fx;
pub mod pose;
pub mod vec3;

pub use fx::SCALE;
