//! Collision shapes and their axis-aligned bounding boxes.

use vstd::prelude::*;

use crate::geom::{Rect, SpecRect, SpecVec2, Transform, Vec2, MAX_COORD, MAX_DIM};

verus! {

/// The shape of a collider: an axis-aligned rectangle or a circle. Every
/// collision query works on the shape's axis-aligned bounding box.
#[derive(Clone, Copy, Debug, PartialEq, Eq, Structural)]
pub enum ColliderShape {
    Rectangle { width: i64, height: i64 },
    Circle { radius: i64 },
}

impl ColliderShape {
    /// The shape's dimensions are positive and within the accepted range.
    pub open spec fn wf(self) -> bool {
        match self {
            ColliderShape::Rectangle { width, height } => {
                &&& 0 < width <= MAX_DIM
                &&& 0 < height <= MAX_DIM
            },
            ColliderShape::Circle { radius } => 0 < radius && 2 * radius <= MAX_DIM,
        }
    }

    /// The bounding box of the shape placed at `pos`: its lower-left corner
    /// sits half the shape's extent below and left of `pos` (rounded down to
    /// the fixed-point grid), and the box spans the shape's full extent.
    pub open spec fn spec_aabb(self, pos: SpecVec2) -> SpecRect {
        match self {
            ColliderShape::Rectangle { width, height } => {
                let min = SpecVec2 { x: pos.x - width / 2, y: pos.y - height / 2 };
                SpecRect { min, max: SpecVec2 { x: min.x + width, y: min.y + height } }
            },
            ColliderShape::Circle { radius } => {
                let min = SpecVec2 { x: pos.x - radius, y: pos.y - radius };
                SpecRect { min, max: SpecVec2 { x: min.x + 2 * radius, y: min.y + 2 * radius } }
            },
        }
    }

    pub fn is_wf(&self) -> (r: bool)
        ensures
            r == self.wf(),
    {
        match self {
            ColliderShape::Rectangle { width, height } => {
                0 < *width && *width <= MAX_DIM && 0 < *height && *height <= MAX_DIM
            },
            ColliderShape::Circle { radius } => 0 < *radius && *radius <= MAX_DIM / 2,
        }
    }

    /// Compute the shape's world-space axis-aligned bounding box for the
    /// given transform.
    pub fn compute_aabb(&self, transform: &Transform) -> (r: Rect)
        requires
            self.wf(),
            transform.position@.in_coord_range(),
        ensures
            r@ == self.spec_aabb(transform.position@),
    {
        self.aabb_at(transform.position)
    }

    /// Compute the shape's bounding box when placed at `pos`. Positions up
    /// to one move beyond the coordinate range are accepted so that
    /// intermediate movement steps can be probed.
    pub fn aabb_at(&self, pos: Vec2) -> (r: Rect)
        requires
            self.wf(),
            -2 * (MAX_COORD as int) + MAX_DIM <= pos.x <= 2 * (MAX_COORD as int) - MAX_DIM,
            -2 * (MAX_COORD as int) + MAX_DIM <= pos.y <= 2 * (MAX_COORD as int) - MAX_DIM,
        ensures
            r@ == self.spec_aabb(pos@),
    {
        match self {
            ColliderShape::Rectangle { width, height } => {
                let min = Vec2 { x: pos.x - *width / 2, y: pos.y - *height / 2 };
                Rect { min, max: Vec2 { x: min.x + *width, y: min.y + *height } }
            },
            ColliderShape::Circle { radius } => {
                let min = Vec2 { x: pos.x - *radius, y: pos.y - *radius };
                Rect { min, max: Vec2 { x: min.x + 2 * *radius, y: min.y + 2 * *radius } }
            },
        }
    }
}

/// A well-formed shape's bounding box is non-degenerate and stays within one
/// dimension bound of its position.
pub proof fn lemma_aabb_extent(shape: ColliderShape, pos: SpecVec2)
    requires
        shape.wf(),
    ensures
        shape.spec_aabb(pos).min.x < shape.spec_aabb(pos).max.x,
        shape.spec_aabb(pos).min.y < shape.spec_aabb(pos).max.y,
        pos.x - MAX_DIM <= shape.spec_aabb(pos).min.x <= pos.x,
        pos.y - MAX_DIM <= shape.spec_aabb(pos).min.y <= pos.y,
        pos.x <= shape.spec_aabb(pos).max.x <= pos.x + MAX_DIM,
        pos.y <= shape.spec_aabb(pos).max.y <= pos.y + MAX_DIM,
{
}

} // verus!
