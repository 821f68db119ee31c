//! Kinematic bodies: per-entity velocity, shape, tuning parameters, and
//! status flags.

use vstd::prelude::*;

use crate::geom::{Rect, Transform, Vec2, FP_ONE, MAX_FRAC, MAX_VEL};
use crate::shape::ColliderShape;

verus! {

/// A kinematic physics body.
///
/// Used for actors that walk around, land on platforms, bounce off walls,
/// and fall under gravity. Velocities are in thousandths of a unit per tick;
/// `bounciness` and `frame_friction_override` are fixed-point fractions in
/// `[0, 1]`.
#[derive(Clone, Copy, Debug, PartialEq, Eq, Structural)]
pub struct KinematicBody {
    pub velocity: Vec2,
    pub shape: ColliderShape,
    /// Angular velocity in thousandths of a degree per second.
    pub angular_velocity: i64,
    /// Downward acceleration in thousandths of a unit per tick, per tick.
    pub gravity: i64,
    /// Fraction of the speed kept (and reversed) when bouncing off a tile.
    pub bounciness: i64,
    /// A one-tick override of the body's friction. It is consumed when the
    /// grounded friction rule reads it, so a continuous change must be set
    /// again every tick.
    pub frame_friction_override: Option<i64>,
    pub is_on_ground: bool,
    pub was_on_ground: bool,
    /// Whether the body currently rests on a jump-through platform.
    pub is_on_platform: bool,
    /// Whether the body is affected by gravity and de-penetration.
    pub has_mass: bool,
    pub has_friction: bool,
    pub can_rotate: bool,
    /// Deactivated bodies are skipped by the mover and their colliders are
    /// disabled.
    pub is_deactivated: bool,
    /// Whether the body should drop through jump-through platforms.
    pub fall_through: bool,
    /// Marks the body as just placed into the world: its one-way-passage
    /// memory is reset once, so that a body spawned inside a jump-through
    /// platform does not read as falsely grounded.
    pub is_spawning: bool,
}

impl KinematicBody {
    /// The body's numeric fields are within the simulation's ranges. The
    /// shape is validated separately, at the start of each step.
    pub open spec fn wf(self) -> bool {
        &&& self.velocity@.in_vel_range()
        &&& -MAX_FRAC <= self.angular_velocity <= MAX_FRAC
        &&& 0 <= self.gravity <= MAX_VEL
        &&& 0 <= self.bounciness <= FP_ONE
        &&& match self.frame_friction_override {
            Some(f) => 0 <= f <= FP_ONE,
            None => true,
        }
    }

    /// Get the body's axis-aligned bounding box for the given transform.
    pub fn bounding_box(&self, transform: Transform) -> (r: Rect)
        requires
            self.shape.wf(),
            transform.position@.in_coord_range(),
        ensures
            r@ == self.shape.spec_aabb(transform.position@),
    {
        self.shape.compute_aabb(&transform)
    }
}

impl Default for KinematicBody {
    /// An inert body: at rest, a unit box, no mass, no friction, every flag
    /// clear.
    fn default() -> (r: KinematicBody)
        ensures
            r == (KinematicBody {
                velocity: Vec2 { x: 0, y: 0 },
                shape: ColliderShape::Rectangle { width: FP_ONE, height: FP_ONE },
                angular_velocity: 0,
                gravity: 0,
                bounciness: 0,
                frame_friction_override: None,
                is_on_ground: false,
                was_on_ground: false,
                is_on_platform: false,
                has_mass: false,
                has_friction: false,
                can_rotate: false,
                is_deactivated: false,
                fall_through: false,
                is_spawning: false,
            }),
    {
        KinematicBody {
            velocity: Vec2 { x: 0, y: 0 },
            shape: ColliderShape::Rectangle { width: FP_ONE, height: FP_ONE },
            angular_velocity: 0,
            gravity: 0,
            bounciness: 0,
            frame_friction_override: None,
            is_on_ground: false,
            was_on_ground: false,
            is_on_platform: false,
            has_mass: false,
            has_friction: false,
            can_rotate: false,
            is_deactivated: false,
            fall_through: false,
            is_spawning: false,
        }
    }
}

} // verus!
