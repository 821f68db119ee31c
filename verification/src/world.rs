//! The collision world: the static tile map, the per-body collider mirrors,
//! and the axis-ordered movement routines with one-way-platform handling.

use vstd::prelude::*;

use crate::collider::{Actor, Collider};
use crate::geom::{SpecVec2, Transform, Vec2, FP_ONE, MAX_COORD, MAX_MOVE};
use crate::shape::{lemma_aabb_extent, ColliderShape};
use crate::tile::{TileCollisionKind, TileFilter, TileMap};

verus! {

/// The result of integrating one vertical move: the final position, the
/// updated passage latch, and whether the motion was truncated.
pub struct MoveOutcome {
    pub pos: SpecVec2,
    pub seen_wood: bool,
    pub collided: bool,
}

/// The result of integrating one horizontal move, including the latch
/// clearing that an actual horizontal displacement performs.
pub struct MoveHOutcome {
    pub pos: SpecVec2,
    pub seen_wood: bool,
    pub descent: bool,
    pub collided: bool,
}

/// Vertical movement, one sub-step at a time: each step advances by at most
/// one world unit and is blocked by solid cells always, and by jump-through
/// cells when moving down without an active passage latch. Passing through
/// a jump-through cell in either direction sets the `seen_wood` latch.
pub open spec fn spec_move_v(
    map: TileMap,
    shape: ColliderShape,
    pos: SpecVec2,
    remaining: nat,
    down: bool,
    seen_wood: bool,
    descent: bool,
) -> MoveOutcome
    decreases remaining,
{
    if remaining == 0 {
        MoveOutcome { pos, seen_wood, collided: false }
    } else {
        let step: int = if remaining < FP_ONE as nat {
            remaining as int
        } else {
            FP_ONE as int
        };
        let cand = SpecVec2 { x: pos.x, y: if down { pos.y - step } else { pos.y + step } };
        let tile = map.spec_collision(shape.spec_aabb(cand), TileFilter::Any);
        if tile == TileCollisionKind::Solid {
            MoveOutcome { pos, seen_wood, collided: true }
        } else if tile == TileCollisionKind::JumpThrough {
            if down && !(descent || seen_wood) {
                MoveOutcome { pos, seen_wood, collided: true }
            } else {
                spec_move_v(map, shape, cand, (remaining - step) as nat, down, true, descent)
            }
        } else {
            spec_move_v(map, shape, cand, (remaining - step) as nat, down, seen_wood, descent)
        }
    }
}

/// Horizontal movement steps: blocked by solid cells only; jump-through
/// cells never impede horizontal motion.
pub open spec fn spec_move_h_steps(
    map: TileMap,
    shape: ColliderShape,
    pos: SpecVec2,
    remaining: nat,
    left: bool,
) -> MoveOutcome
    decreases remaining,
{
    if remaining == 0 {
        MoveOutcome { pos, seen_wood: false, collided: false }
    } else {
        let step: int = if remaining < FP_ONE as nat {
            remaining as int
        } else {
            FP_ONE as int
        };
        let cand = SpecVec2 { x: if left { pos.x - step } else { pos.x + step }, y: pos.y };
        let tile = map.spec_collision(shape.spec_aabb(cand), TileFilter::Any);
        if tile == TileCollisionKind::Solid {
            MoveOutcome { pos, seen_wood: false, collided: true }
        } else {
            spec_move_h_steps(map, shape, cand, (remaining - step) as nat, left)
        }
    }
}

/// A full horizontal move: the stepping above, followed by the side effect
/// the engine relies on — an actual horizontal displacement clears the
/// body's one-way-passage latches.
pub open spec fn spec_move_h(
    map: TileMap,
    shape: ColliderShape,
    pos: SpecVec2,
    remaining: nat,
    left: bool,
    seen_wood: bool,
    descent: bool,
) -> MoveHOutcome {
    let s = spec_move_h_steps(map, shape, pos, remaining, left);
    let moved = s.pos.x != pos.x;
    MoveHOutcome {
        pos: s.pos,
        seen_wood: if moved {
            false
        } else {
            seen_wood
        },
        descent: if moved {
            false
        } else {
            descent
        },
        collided: s.collided,
    }
}

/// A vertical move never leaves the segment of length `remaining` around the
/// start, and does not move horizontally.
pub proof fn lemma_move_v_bounds(
    map: TileMap,
    shape: ColliderShape,
    pos: SpecVec2,
    remaining: nat,
    down: bool,
    seen_wood: bool,
    descent: bool,
)
    ensures
        spec_move_v(map, shape, pos, remaining, down, seen_wood, descent).pos.x == pos.x,
        pos.y - remaining <= spec_move_v(map, shape, pos, remaining, down, seen_wood, descent).pos.y
            <= pos.y + remaining,
    decreases remaining,
{
    if remaining != 0 {
        let step: int = if remaining < FP_ONE as nat {
            remaining as int
        } else {
            FP_ONE as int
        };
        let cand = SpecVec2 { x: pos.x, y: if down { pos.y - step } else { pos.y + step } };
        let tile = map.spec_collision(shape.spec_aabb(cand), TileFilter::Any);
        if tile == TileCollisionKind::Solid {
        } else if tile == TileCollisionKind::JumpThrough {
            if down && !(descent || seen_wood) {
            } else {
                lemma_move_v_bounds(map, shape, cand, (remaining - step) as nat, down, true, descent);
            }
        } else {
            lemma_move_v_bounds(
                map,
                shape,
                cand,
                (remaining - step) as nat,
                down,
                seen_wood,
                descent,
            );
        }
    }
}

/// A horizontal move never leaves the segment of length `remaining` around
/// the start, and does not move vertically.
pub proof fn lemma_move_h_bounds(
    map: TileMap,
    shape: ColliderShape,
    pos: SpecVec2,
    remaining: nat,
    left: bool,
)
    ensures
        spec_move_h_steps(map, shape, pos, remaining, left).pos.y == pos.y,
        pos.x - remaining <= spec_move_h_steps(map, shape, pos, remaining, left).pos.x <= pos.x
            + remaining,
    decreases remaining,
{
    if remaining != 0 {
        let step: int = if remaining < FP_ONE as nat {
            remaining as int
        } else {
            FP_ONE as int
        };
        let cand = SpecVec2 { x: if left { pos.x - step } else { pos.x + step }, y: pos.y };
        let tile = map.spec_collision(shape.spec_aabb(cand), TileFilter::Any);
        if tile == TileCollisionKind::Solid {
        } else {
            lemma_move_h_bounds(map, shape, cand, (remaining - step) as nat, left);
        }
    }
}

/// On a map whose every cell is empty, a vertical move covers its whole
/// distance, collides with nothing, and keeps the passage latch.
pub proof fn lemma_move_v_free(
    map: TileMap,
    shape: ColliderShape,
    pos: SpecVec2,
    remaining: nat,
    down: bool,
    seen_wood: bool,
    descent: bool,
)
    requires
        forall|i: int, j: int| #[trigger] map.kind_at(i, j) == TileCollisionKind::Empty,
    ensures
        spec_move_v(map, shape, pos, remaining, down, seen_wood, descent) == (MoveOutcome {
            pos: SpecVec2 {
                x: pos.x,
                y: if down {
                    pos.y - remaining
                } else {
                    pos.y + remaining
                },
            },
            seen_wood,
            collided: false,
        }),
    decreases remaining,
{
    if remaining != 0 {
        let step: int = if remaining < FP_ONE as nat {
            remaining as int
        } else {
            FP_ONE as int
        };
        let cand = SpecVec2 { x: pos.x, y: if down { pos.y - step } else { pos.y + step } };
        crate::tile::lemma_empty_map_collision(map, shape.spec_aabb(cand), TileFilter::Any);
        lemma_move_v_free(map, shape, cand, (remaining - step) as nat, down, seen_wood, descent);
    }
}

/// On a map whose every cell is empty, a horizontal move covers its whole
/// distance and collides with nothing.
pub proof fn lemma_move_h_free(
    map: TileMap,
    shape: ColliderShape,
    pos: SpecVec2,
    remaining: nat,
    left: bool,
)
    requires
        forall|i: int, j: int| #[trigger] map.kind_at(i, j) == TileCollisionKind::Empty,
    ensures
        spec_move_h_steps(map, shape, pos, remaining, left) == (MoveOutcome {
            pos: SpecVec2 {
                x: if left {
                    pos.x - remaining
                } else {
                    pos.x + remaining
                },
                y: pos.y,
            },
            seen_wood: false,
            collided: false,
        }),
    decreases remaining,
{
    if remaining != 0 {
        let step: int = if remaining < FP_ONE as nat {
            remaining as int
        } else {
            FP_ONE as int
        };
        let cand = SpecVec2 { x: if left { pos.x - step } else { pos.x + step }, y: pos.y };
        crate::tile::lemma_empty_map_collision(map, shape.spec_aabb(cand), TileFilter::Any);
        lemma_move_h_free(map, shape, cand, (remaining - step) as nat, left);
    }
}

/// How the spatial-index update refreshes one collider record from the
/// body's transform.
pub open spec fn spec_synced(c: Option<Collider>, t: Option<Transform>) -> Option<Collider> {
    match (c, t) {
        (Some(c), Some(t)) => Some(Collider { pos: t.position, ..c }),
        (c, _) => c,
    }
}

/// The collision world: the static tile map plus the mirrored collider and
/// actor records, indexed by entity handle.
pub struct CollisionWorld {
    pub map: TileMap,
    pub colliders: Vec<Option<Collider>>,
    pub actors: Vec<Option<Actor>>,
}

impl CollisionWorld {
    pub open spec fn wf(self) -> bool {
        &&& self.map.wf()
        &&& self.actors@.len() == self.colliders@.len()
    }

    /// The number of entity slots.
    pub open spec fn spec_capacity(self) -> int {
        self.colliders@.len() as int
    }

    /// Whether entity `e` has a hydrated collider mirror.
    pub open spec fn has_collider(self, e: int) -> bool {
        0 <= e < self.colliders@.len() && self.colliders@[e].is_some()
    }

    /// The collider mirror of entity `e`.
    pub open spec fn collider_of(self, e: int) -> Collider {
        self.colliders@[e].unwrap()
    }

    /// Create a world over `map` with `capacity` empty entity slots.
    pub fn new(map: TileMap, capacity: usize) -> (r: CollisionWorld)
        requires
            map.wf(),
        ensures
            r.wf(),
            r.map == map,
            r.colliders@.len() == capacity,
            forall|i: int| 0 <= i < capacity ==> r.colliders@[i] is None,
            forall|i: int| 0 <= i < capacity ==> r.actors@[i] is None,
    {
        let mut colliders: Vec<Option<Collider>> = Vec::new();
        let mut actors: Vec<Option<Actor>> = Vec::new();
        let mut k: usize = 0;
        while k < capacity
            invariant
                k <= capacity,
                colliders@.len() == k,
                actors@.len() == k,
                forall|i: int| 0 <= i < k ==> colliders@[i] is None,
                forall|i: int| 0 <= i < k ==> actors@[i] is None,
            decreases capacity - k,
        {
            colliders.push(None);
            actors.push(None);
            k = k + 1;
        }
        CollisionWorld { map, colliders, actors }
    }

    /// Resynchronize the internal spatial index from the bodies' transforms.
    /// Must be called once per tick, before any query or move that tick.
    pub fn update(&mut self, transforms: &Vec<Option<Transform>>)
        requires
            old(self).wf(),
            transforms@.len() == old(self).colliders@.len(),
        ensures
            final(self).wf(),
            final(self).map == old(self).map,
            final(self).actors == old(self).actors,
            final(self).colliders@.len() == old(self).colliders@.len(),
            forall|i: int|
                0 <= i < old(self).colliders@.len() ==> final(self).colliders@[i] == spec_synced(
                    old(self).colliders@[i],
                    transforms@[i],
                ),
    {
        let n: usize = self.colliders.len();
        let mut k: usize = 0;
        while k < n
            invariant
                self.wf(),
                n == self.colliders@.len(),
                transforms@.len() == n,
                k <= n,
                self.map == old(self).map,
                self.actors == old(self).actors,
                forall|i: int|
                    0 <= i < k ==> self.colliders@[i] == spec_synced(
                        old(self).colliders@[i],
                        transforms@[i],
                    ),
                forall|i: int| k <= i < n ==> self.colliders@[i] == old(self).colliders@[i],
            decreases n - k,
        {
            let c: Option<Collider> = self.colliders[k];
            let t: Option<Transform> = transforms[k];
            match (c, t) {
                (Some(c), Some(t)) => {
                    self.colliders[k] = Some(Collider { pos: t.position, ..c });
                },
                _ => {},
            }
            k = k + 1;
        }
    }

    /// Clear entity `e`'s one-way-passage memory, as if it had just been
    /// placed into the world.
    pub fn handle_teleport(&mut self, e: usize)
        requires
            old(self).wf(),
            old(self).has_collider(e as int),
        ensures
            final(self).wf(),
            final(self).map == old(self).map,
            final(self).actors == old(self).actors,
            final(self).colliders@.len() == old(self).colliders@.len(),
            forall|i: int|
                0 <= i < old(self).colliders@.len() && i != e ==> final(self).colliders@[i] == old(
                    self,
                ).colliders@[i],
            final(self).colliders@[e as int] == Some(
                Collider { seen_wood: false, descent: false, ..old(self).collider_of(e as int) },
            ),
    {
        let c: Collider = self.colliders[e].unwrap();
        self.colliders[e] = Some(Collider { seen_wood: false, descent: false, ..c });
    }

    /// Mark entity `e` as actively dropping through jump-through platforms
    /// this tick.
    pub fn descent(&mut self, e: usize)
        requires
            old(self).wf(),
            old(self).has_collider(e as int),
        ensures
            final(self).wf(),
            final(self).map == old(self).map,
            final(self).actors == old(self).actors,
            final(self).colliders@.len() == old(self).colliders@.len(),
            forall|i: int|
                0 <= i < old(self).colliders@.len() && i != e ==> final(self).colliders@[i] == old(
                    self,
                ).colliders@[i],
            final(self).colliders@[e as int] == Some(
                Collider { descent: true, ..old(self).collider_of(e as int) },
            ),
    {
        let c: Collider = self.colliders[e].unwrap();
        self.colliders[e] = Some(Collider { descent: true, ..c });
    }

    /// Read entity `e`'s collider mirror.
    pub fn get_collider(&self, e: usize) -> (r: Collider)
        requires
            self.wf(),
            self.has_collider(e as int),
        ensures
            r == self.collider_of(e as int),
    {
        self.colliders[e].unwrap()
    }

    /// Report whether the cell containing `p` is solid; jump-through cells
    /// never count.
    pub fn solid_at(&self, p: Vec2) -> (r: bool)
        requires
            self.wf(),
            -2 * MAX_COORD <= p.x <= 2 * MAX_COORD,
            -2 * MAX_COORD <= p.y <= 2 * MAX_COORD,
        ensures
            r == self.map.spec_solid_at(p@),
    {
        self.map.solid_at(p)
    }

    /// Classify the overlap of `shape` at `transform` against the map:
    /// solid wins over jump-through, which wins over empty.
    pub fn tile_collision(&self, transform: Transform, shape: ColliderShape) -> (r:
        TileCollisionKind)
        requires
            self.wf(),
            shape.wf(),
            transform.position@.in_move_range(),
        ensures
            r == self.map.spec_collision(shape.spec_aabb(transform.position@), TileFilter::Any),
    {
        self.tile_collision_filtered(transform, shape, TileFilter::Any)
    }

    /// Classify the overlap of `shape` at `transform` against the map,
    /// considering only the cells admitted by `filter`.
    pub fn tile_collision_filtered(
        &self,
        transform: Transform,
        shape: ColliderShape,
        filter: TileFilter,
    ) -> (r: TileCollisionKind)
        requires
            self.wf(),
            shape.wf(),
            transform.position@.in_move_range(),
        ensures
            r == self.map.spec_collision(shape.spec_aabb(transform.position@), filter),
    {
        let rect = shape.aabb_at(transform.position);
        proof {
            lemma_aabb_extent(shape, transform.position@);
        }
        self.map.collision_rect(&rect, filter)
    }

    /// Integrate a vertical displacement for entity `e`, stopping at the
    /// first blocking tile; returns whether the motion was truncated.
    /// Downward motion is blocked by jump-through platforms unless the
    /// entity's passage latches are active; passing through one sets the
    /// `seen_wood` latch.
    pub fn move_vertical(
        &mut self,
        transforms: &mut Vec<Option<Transform>>,
        e: usize,
        delta: i64,
    ) -> (r: bool)
        requires
            old(self).wf(),
            old(transforms)@.len() == old(self).colliders@.len(),
            old(self).has_collider(e as int),
            old(self).collider_of(e as int).shape.wf(),
            old(transforms)@[e as int].is_some(),
            old(transforms)@[e as int].unwrap().position@.in_move_range(),
            -MAX_MOVE <= delta <= MAX_MOVE,
        ensures
            final(self).wf(),
            final(self).map == old(self).map,
            final(self).actors == old(self).actors,
            final(self).colliders@.len() == old(self).colliders@.len(),
            final(transforms)@.len() == old(transforms)@.len(),
            forall|i: int|
                0 <= i < old(self).colliders@.len() && i != e ==> final(self).colliders@[i] == old(
                    self,
                ).colliders@[i],
            forall|i: int|
                0 <= i < old(transforms)@.len() && i != e ==> final(transforms)@[i] == old(
                    transforms,
                )@[i],
            ({
                let c = old(self).collider_of(e as int);
                let t = old(transforms)@[e as int].unwrap();
                let m = spec_move_v(
                    old(self).map,
                    c.shape,
                    t.position@,
                    (if delta < 0 {
                        -(delta as int)
                    } else {
                        delta as int
                    }) as nat,
                    delta < 0,
                    c.seen_wood,
                    c.descent,
                );
                &&& final(transforms)@[e as int].is_some()
                &&& final(transforms)@[e as int].unwrap().position@ == m.pos
                &&& final(transforms)@[e as int].unwrap().rotation == t.rotation
                &&& final(self).colliders@[e as int] == Some(
                    Collider { seen_wood: m.seen_wood, ..c },
                )
                &&& r == m.collided
            }),
    {
        let c: Collider = self.colliders[e].unwrap();
        let t: Transform = transforms[e].unwrap();
        let down: bool = delta < 0;
        let mut remaining: i64 = if delta < 0 {
            -delta
        } else {
            delta
        };
        let mut y: i64 = t.position.y;
        let mut seen_wood: bool = c.seen_wood;
        let mut collided: bool = false;
        let ghost rem0: int = remaining as int;
        let ghost y0: int = y as int;
        let ghost target: MoveOutcome = spec_move_v(
            self.map,
            c.shape,
            t.position@,
            rem0 as nat,
            down,
            c.seen_wood,
            c.descent,
        );
        while !collided && remaining > 0
            invariant
                self.wf(),
                c.shape.wf(),
                0 <= remaining <= rem0 <= MAX_MOVE,
                -(MAX_COORD as int) - 3 * (MAX_MOVE as int) <= t.position.x as int <= MAX_COORD
                    as int + 3 * (MAX_MOVE as int),
                -(MAX_COORD as int) - 3 * (MAX_MOVE as int) <= y0 <= MAX_COORD as int + 3 * (
                MAX_MOVE as int),
                y0 - (rem0 - remaining) <= y <= y0 + (rem0 - remaining),
                target == (if collided {
                    MoveOutcome {
                        pos: SpecVec2 { x: t.position.x as int, y: y as int },
                        seen_wood,
                        collided: true,
                    }
                } else {
                    spec_move_v(
                        self.map,
                        c.shape,
                        SpecVec2 { x: t.position.x as int, y: y as int },
                        remaining as nat,
                        down,
                        seen_wood,
                        c.descent,
                    )
                }),
            decreases remaining + (if collided {
                0int
            } else {
                1int
            }),
        {
            let step: i64 = if remaining < FP_ONE {
                remaining
            } else {
                FP_ONE
            };
            let cand_y: i64 = if down {
                y - step
            } else {
                y + step
            };
            let cand = Vec2 { x: t.position.x, y: cand_y };
            let rect = c.shape.aabb_at(cand);
            proof {
                lemma_aabb_extent(c.shape, cand@);
            }
            let tile = self.map.collision_rect(&rect, TileFilter::Any);
            match tile {
                TileCollisionKind::Solid => {
                    collided = true;
                },
                TileCollisionKind::JumpThrough => {
                    if down && !(c.descent || seen_wood) {
                        collided = true;
                    } else {
                        y = cand_y;
                        seen_wood = true;
                        remaining = remaining - step;
                    }
                },
                TileCollisionKind::Empty => {
                    y = cand_y;
                    remaining = remaining - step;
                },
            }
        }
        self.colliders[e] = Some(Collider { seen_wood, ..c });
        transforms[e] = Some(
            Transform { position: Vec2 { x: t.position.x, y }, rotation: t.rotation },
        );
        collided
    }

    /// Integrate a horizontal displacement for entity `e`, stopping at the
    /// first solid tile; returns whether the motion was truncated. Side
    /// effect: an actual horizontal displacement clears the entity's
    /// one-way-passage latches, so this must run after the vertical move of
    /// the same tick.
    pub fn move_horizontal(
        &mut self,
        transforms: &mut Vec<Option<Transform>>,
        e: usize,
        delta: i64,
    ) -> (r: bool)
        requires
            old(self).wf(),
            old(transforms)@.len() == old(self).colliders@.len(),
            old(self).has_collider(e as int),
            old(self).collider_of(e as int).shape.wf(),
            old(transforms)@[e as int].is_some(),
            old(transforms)@[e as int].unwrap().position@.in_move_range(),
            -MAX_MOVE <= delta <= MAX_MOVE,
        ensures
            final(self).wf(),
            final(self).map == old(self).map,
            final(self).actors == old(self).actors,
            final(self).colliders@.len() == old(self).colliders@.len(),
            final(transforms)@.len() == old(transforms)@.len(),
            forall|i: int|
                0 <= i < old(self).colliders@.len() && i != e ==> final(self).colliders@[i] == old(
                    self,
                ).colliders@[i],
            forall|i: int|
                0 <= i < old(transforms)@.len() && i != e ==> final(transforms)@[i] == old(
                    transforms,
                )@[i],
            ({
                let c = old(self).collider_of(e as int);
                let t = old(transforms)@[e as int].unwrap();
                let m = spec_move_h(
                    old(self).map,
                    c.shape,
                    t.position@,
                    (if delta < 0 {
                        -(delta as int)
                    } else {
                        delta as int
                    }) as nat,
                    delta < 0,
                    c.seen_wood,
                    c.descent,
                );
                &&& final(transforms)@[e as int].is_some()
                &&& final(transforms)@[e as int].unwrap().position@ == m.pos
                &&& final(transforms)@[e as int].unwrap().rotation == t.rotation
                &&& final(self).colliders@[e as int] == Some(
                    Collider { seen_wood: m.seen_wood, descent: m.descent, ..c },
                )
                &&& r == m.collided
            }),
    {
        let c: Collider = self.colliders[e].unwrap();
        let t: Transform = transforms[e].unwrap();
        let left: bool = delta < 0;
        let mut remaining: i64 = if delta < 0 {
            -delta
        } else {
            delta
        };
        let mut x: i64 = t.position.x;
        let mut collided: bool = false;
        let ghost rem0: int = remaining as int;
        let ghost x0: int = x as int;
        let ghost target: MoveOutcome = spec_move_h_steps(
            self.map,
            c.shape,
            t.position@,
            rem0 as nat,
            left,
        );
        while !collided && remaining > 0
            invariant
                self.wf(),
                c.shape.wf(),
                0 <= remaining <= rem0 <= MAX_MOVE,
                -(MAX_COORD as int) - 3 * (MAX_MOVE as int) <= t.position.y as int <= MAX_COORD
                    as int + 3 * (MAX_MOVE as int),
                -(MAX_COORD as int) - 3 * (MAX_MOVE as int) <= x0 <= MAX_COORD as int + 3 * (
                MAX_MOVE as int),
                x0 - (rem0 - remaining) <= x <= x0 + (rem0 - remaining),
                target == (if collided {
                    MoveOutcome {
                        pos: SpecVec2 { x: x as int, y: t.position.y as int },
                        seen_wood: false,
                        collided: true,
                    }
                } else {
                    spec_move_h_steps(
                        self.map,
                        c.shape,
                        SpecVec2 { x: x as int, y: t.position.y as int },
                        remaining as nat,
                        left,
                    )
                }),
            decreases remaining + (if collided {
                0int
            } else {
                1int
            }),
        {
            let step: i64 = if remaining < FP_ONE {
                remaining
            } else {
                FP_ONE
            };
            let cand_x: i64 = if left {
                x - step
            } else {
                x + step
            };
            let cand = Vec2 { x: cand_x, y: t.position.y };
            let rect = c.shape.aabb_at(cand);
            proof {
                lemma_aabb_extent(c.shape, cand@);
            }
            let tile = self.map.collision_rect(&rect, TileFilter::Any);
            match tile {
                TileCollisionKind::Solid => {
                    collided = true;
                },
                _ => {
                    x = cand_x;
                    remaining = remaining - step;
                },
            }
        }
        let moved: bool = x != t.position.x;
        let seen_wood: bool = if moved {
            false
        } else {
            c.seen_wood
        };
        let descent: bool = if moved {
            false
        } else {
            c.descent
        };
        self.colliders[e] = Some(Collider { seen_wood, descent, ..c });
        transforms[e] = Some(
            Transform { position: Vec2 { x, y: t.position.y }, rotation: t.rotation },
        );
        collided
    }
}

} // verus!
