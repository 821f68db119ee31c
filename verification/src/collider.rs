//! Per-body collider records mirrored from kinematic bodies.

use vstd::prelude::*;

use crate::geom::Vec2;
use crate::shape::ColliderShape;

verus! {

/// Marker identifying an entity as a physical mover eligible for collision
/// queries, as opposed to a pure sensor.
#[derive(Clone, Copy, Debug, PartialEq, Eq, Structural)]
pub struct Actor;

/// The collision world's shadow record for one body: the mirrored shape,
/// the position as of the last spatial-index update, and the one-way-passage
/// latches.
#[derive(Clone, Copy, Debug, PartialEq, Eq, Structural)]
pub struct Collider {
    /// Mirror of the body's shape; the body is authoritative and the mirror
    /// is resynchronized every tick.
    pub shape: ColliderShape,
    /// The body's position as of the last spatial-index update.
    pub pos: Vec2,
    /// Disabled colliders belong to deactivated bodies.
    pub disabled: bool,
    /// Latch: the body has passed through a jump-through platform and must
    /// not snag on it again. Persists until a horizontal move or a teleport
    /// clears it.
    pub seen_wood: bool,
    /// Latch: the body is actively dropping through jump-through platforms
    /// this tick. Cleared like `seen_wood`.
    pub descent: bool,
}

impl Collider {
    /// A fresh mirror for a body of the given shape, as created by
    /// hydration: enabled, with all passage memory cleared.
    pub fn new(shape: ColliderShape) -> (r: Collider)
        ensures
            r == (Collider {
                shape,
                pos: Vec2 { x: 0, y: 0 },
                disabled: false,
                seen_wood: false,
                descent: false,
            }),
    {
        Collider { shape, pos: Vec2 { x: 0, y: 0 }, disabled: false, seen_wood: false, descent: false }
    }
}

} // verus!
