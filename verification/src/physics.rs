//! The mover: the per-tick stepping algorithm for kinematic bodies —
//! de-penetration, axis-ordered movement with bounce, ground classification,
//! and friction/gravity/rotation integration.

use vstd::prelude::*;

use crate::body::KinematicBody;
use crate::collider::{Actor, Collider};
use crate::geom::{
    mod_euclid, scale_by_frac, spec_scale, SpecVec2, Transform, Vec2, FP_ONE, MAX_FRAC, MAX_MOVE,
    MAX_VEL,
};
use crate::shape::ColliderShape;
use crate::tile::{TileCollisionKind, TileFilter, TileMap};
use crate::world::{lemma_move_h_bounds, lemma_move_v_bounds};
use crate::world::{spec_move_h, spec_move_v, CollisionWorld};

verus! {

/// The nominal simulation rate in ticks per second.
pub const FPS: i64 = 60;

/// Largest time factor (actual tick duration over nominal duration, in
/// thousandths) the mover accepts: sixteen nominal ticks.
pub const MAX_TIME_FACTOR: i64 = 16_000;

/// How far below a body the ground probe looks, in thousandths of a unit.
pub const PROBE_OFFSET: i64 = 100;

/// The outward border added around a body's bounding box when probing its
/// corners during de-penetration, so that a box lined up exactly along a
/// tile edge still reads the tile beside it.
pub const DEPEN_BORDER: i64 = 100;

/// Bound on de-penetration nudges in one tick; when exceeded the overlap is
/// reported as unresolvable and the body is left overlapping.
pub const DEPEN_MAX_ITERS: u64 = 256;

/// Tuning constants read from the host each tick.
#[derive(Clone, Copy, Debug, PartialEq, Eq, Structural)]
pub struct PhysicsParams {
    /// Fraction (thousandths) of its velocity a grounded body with friction
    /// keeps each tick.
    pub friction_lerp: i64,
    /// Speed below which a grounded body's horizontal velocity snaps to
    /// zero.
    pub stop_threshold: i64,
    /// Largest falling speed; gravity never accelerates a body beyond it.
    pub terminal_velocity: i64,
    /// Threshold for suppressing residual vertical velocity while grounded.
    pub gravity: i64,
}

impl PhysicsParams {
    pub open spec fn wf(self) -> bool {
        &&& 0 <= self.friction_lerp <= FP_ONE
        &&& 0 <= self.stop_threshold <= MAX_VEL
        &&& 0 <= self.terminal_velocity <= MAX_VEL
        &&& 0 <= self.gravity <= MAX_VEL
    }
}

/// What can go wrong while stepping one body.
#[derive(Clone, Copy, Debug, PartialEq, Eq, Structural)]
pub enum PhysicsError {
    /// De-penetration exhausted its heuristics; the body is left
    /// overlapping and the tick continues.
    UnresolvableOverlap,
    /// A body has no hydrated collider mirror: a hydration-ordering bug
    /// upstream, so the body's step is aborted.
    MissingMirror,
    /// A malformed shape reached the bounding-box logic; the body's step is
    /// aborted.
    InvalidShapeQuery,
}

/// An anomaly recorded for one body during a tick.
#[derive(Clone, Copy, Debug, PartialEq, Eq, Structural)]
pub struct BodyAnomaly {
    pub entity: usize,
    pub error: PhysicsError,
}

/// The result of a de-penetration pass.
pub struct DepenOutcome {
    pub pos: SpecVec2,
    pub unresolved: bool,
}

/// One de-penetration pass: while the shape overlaps solid tiles, probe the
/// four corners of its bounding box (pushed outward by a small border) and
/// nudge the position one unit toward the side whose pair of corners is
/// clear. If all corners are clear, all are blocked, the pattern is
/// ambiguous, or the fuel runs out, give up and report the overlap as
/// unresolved, leaving the position as it stands.
pub open spec fn spec_depen(map: TileMap, shape: ColliderShape, pos: SpecVec2, fuel: nat) -> DepenOutcome
    decreases fuel,
{
    if map.spec_collision(shape.spec_aabb(pos), TileFilter::Any) != TileCollisionKind::Solid {
        DepenOutcome { pos, unresolved: false }
    } else if fuel == 0 {
        DepenOutcome { pos, unresolved: true }
    } else {
        let rect = shape.spec_aabb(pos);
        let b = DEPEN_BORDER as int;
        let tl = map.spec_solid_at(SpecVec2 { x: rect.min.x - b, y: rect.max.y + b });
        let tr = map.spec_solid_at(SpecVec2 { x: rect.max.x + b, y: rect.max.y + b });
        let br = map.spec_solid_at(SpecVec2 { x: rect.max.x + b, y: rect.min.y - b });
        let bl = map.spec_solid_at(SpecVec2 { x: rect.min.x - b, y: rect.min.y - b });
        if !tl && !tr && !br && !bl {
            DepenOutcome { pos, unresolved: true }
        } else if !tl && !tr {
            spec_depen(
                map,
                shape,
                SpecVec2 { x: pos.x, y: pos.y + FP_ONE },
                (fuel - 1) as nat,
            )
        } else if !tr && !br {
            spec_depen(
                map,
                shape,
                SpecVec2 { x: pos.x + FP_ONE, y: pos.y },
                (fuel - 1) as nat,
            )
        } else if !br && !bl {
            spec_depen(
                map,
                shape,
                SpecVec2 { x: pos.x, y: pos.y - FP_ONE },
                (fuel - 1) as nat,
            )
        } else if !tl && !bl {
            spec_depen(
                map,
                shape,
                SpecVec2 { x: pos.x - FP_ONE, y: pos.y },
                (fuel - 1) as nat,
            )
        } else {
            DepenOutcome { pos, unresolved: true }
        }
    }
}

/// Shove a body out of the solid tiles it overlaps; returns the corrected
/// position and whether the overlap could not be resolved.
fn depenetrate(map: &TileMap, shape: &ColliderShape, start: Vec2) -> (r: (Vec2, bool))
    requires
        map.wf(),
        shape.wf(),
        start@.in_coord_range(),
    ensures
        ({
            let d = spec_depen(*map, *shape, start@, DEPEN_MAX_ITERS as nat);
            &&& r.0@ == d.pos
            &&& r.1 == d.unresolved
        }),
        start.x - 256_000 <= r.0.x <= start.x + 256_000,
        start.y - 256_000 <= r.0.y <= start.y + 256_000,
{
    let ghost target: DepenOutcome = spec_depen(*map, *shape, start@, DEPEN_MAX_ITERS as nat);
    let mut pos: Vec2 = start;
    let mut fuel: u64 = DEPEN_MAX_ITERS;
    let mut done: bool = false;
    let mut unresolved: bool = false;
    while !done
        invariant
            map.wf(),
            shape.wf(),
            start@.in_coord_range(),
            fuel <= DEPEN_MAX_ITERS,
            start.x - (DEPEN_MAX_ITERS - fuel) * (FP_ONE as int) <= pos.x <= start.x + (
            DEPEN_MAX_ITERS - fuel) * (FP_ONE as int),
            start.y - (DEPEN_MAX_ITERS - fuel) * (FP_ONE as int) <= pos.y <= start.y + (
            DEPEN_MAX_ITERS - fuel) * (FP_ONE as int),
            !done ==> !unresolved,
            target == (if done {
                DepenOutcome { pos: pos@, unresolved }
            } else {
                spec_depen(*map, *shape, pos@, fuel as nat)
            }),
        decreases fuel + (if done {
            0int
        } else {
            1int
        }),
    {
        let rect = shape.aabb_at(pos);
        proof {
            crate::shape::lemma_aabb_extent(*shape, pos@);
        }
        let tile = map.collision_rect(&rect, TileFilter::Any);
        if !matches!(tile, TileCollisionKind::Solid) {
            done = true;
        } else if fuel == 0 {
            done = true;
            unresolved = true;
        } else {
            let tl = map.solid_at(Vec2 { x: rect.min.x - DEPEN_BORDER, y: rect.max.y + DEPEN_BORDER });
            let tr = map.solid_at(Vec2 { x: rect.max.x + DEPEN_BORDER, y: rect.max.y + DEPEN_BORDER });
            let br = map.solid_at(Vec2 { x: rect.max.x + DEPEN_BORDER, y: rect.min.y - DEPEN_BORDER });
            let bl = map.solid_at(Vec2 { x: rect.min.x - DEPEN_BORDER, y: rect.min.y - DEPEN_BORDER });
            if !tl && !tr && !br && !bl {
                // The overlap test fired but no corner reads solid: an
                // inconsistent probe; give up and leave the body overlapping.
                done = true;
                unresolved = true;
            } else if !tl && !tr {
                pos = Vec2 { x: pos.x, y: pos.y + FP_ONE };
                fuel = fuel - 1;
            } else if !tr && !br {
                pos = Vec2 { x: pos.x + FP_ONE, y: pos.y };
                fuel = fuel - 1;
            } else if !br && !bl {
                pos = Vec2 { x: pos.x, y: pos.y - FP_ONE };
                fuel = fuel - 1;
            } else if !tl && !bl {
                pos = Vec2 { x: pos.x - FP_ONE, y: pos.y };
                fuel = fuel - 1;
            } else {
                // No side has both corners clear: ambiguous; give up.
                done = true;
                unresolved = true;
            }
        }
    }
    (pos, unresolved)
}

/// The effect of the movement half of a step: de-penetration, the latch
/// updates of spawning and fall-through, and the vertical-then-horizontal
/// move.
pub struct MovePhaseOut {
    pub pos: SpecVec2,
    pub seen_wood: bool,
    pub descent: bool,
    pub unresolved: bool,
    pub collided_x: bool,
    pub collided_y: bool,
}

/// The movement half of one step: massive bodies are de-penetrated, a
/// spawning body's passage memory is cleared, a falling-through body gets
/// the descent latch, and the body then moves vertically and horizontally,
/// in that order.
pub open spec fn spec_move_phase(
    map: TileMap,
    tf: int,
    b: KinematicBody,
    t: Transform,
    c: Collider,
) -> MovePhaseOut {
    let d = if b.has_mass {
        spec_depen(map, b.shape, t.position@, DEPEN_MAX_ITERS as nat)
    } else {
        DepenOutcome { pos: t.position@, unresolved: false }
    };
    let sw0 = if b.is_spawning {
        false
    } else {
        c.seen_wood
    };
    let de0 = if b.is_spawning {
        false
    } else {
        c.descent
    };
    let de1 = if b.fall_through {
        true
    } else {
        de0
    };
    let dv = spec_scale(b.velocity.y as int, tf);
    let mv = spec_move_v(
        map,
        b.shape,
        d.pos,
        (if dv < 0 {
            -dv
        } else {
            dv
        }) as nat,
        dv < 0,
        sw0,
        de1,
    );
    let dh = spec_scale(b.velocity.x as int, tf);
    let mh = spec_move_h(
        map,
        b.shape,
        mv.pos,
        (if dh < 0 {
            -dh
        } else {
            dh
        }) as nat,
        dh < 0,
        mv.seen_wood,
        de1,
    );
    MovePhaseOut {
        pos: mh.pos,
        seen_wood: mh.seen_wood,
        descent: mh.descent,
        unresolved: d.unresolved,
        collided_x: mh.collided,
        collided_y: mv.collided,
    }
}

/// The ground-classification block: first the wedge check (a motionless body
/// still overlapping a jump-through tile starts falling through, so it
/// cannot hang just above a platform it logically stands inside), then the
/// probe of the position one tenth of a unit below the body.
pub struct GroundOut {
    pub fall_through: bool,
    pub was_on_ground: bool,
    pub is_on_ground: bool,
    pub is_on_platform: bool,
    pub probe: TileCollisionKind,
}

pub open spec fn spec_ground_check(
    map: TileMap,
    shape: ColliderShape,
    pos: SpecVec2,
    vel: SpecVec2,
    seen_wood: bool,
    fall_through: bool,
    was_grounded: bool,
) -> GroundOut {
    let ft = fall_through || (vel.x == 0 && vel.y == 0 && map.spec_collision(
        shape.spec_aabb(pos),
        TileFilter::OnlyJumpThrough,
    ) == TileCollisionKind::JumpThrough);
    let probe_pos = SpecVec2 { x: pos.x, y: pos.y - PROBE_OFFSET };
    let filter = if seen_wood {
        TileFilter::ExcludeJumpThrough
    } else {
        TileFilter::Any
    };
    let tile = map.spec_collision(shape.spec_aabb(probe_pos), filter);
    let on_jt = tile == TileCollisionKind::JumpThrough;
    let grounded = tile != TileCollisionKind::Empty && !(on_jt && ft);
    GroundOut {
        fall_through: ft,
        was_on_ground: was_grounded,
        is_on_ground: grounded,
        is_on_platform: grounded && on_jt,
        probe: tile,
    }
}

/// The grounded velocity policy: friction on both axes (with the one-tick
/// override consumed if present), the stop threshold, and the suppression of
/// residual vertical velocity.
pub struct PolicyOut {
    pub vx: int,
    pub vy: int,
    pub frame_friction_override: Option<int>,
}

pub open spec fn spec_ground_policy(
    params: PhysicsParams,
    grounded: bool,
    has_friction: bool,
    vx: int,
    vy: int,
    ffo: Option<int>,
) -> PolicyOut {
    if grounded {
        let vx1 = if has_friction {
            let fr = if ffo is Some {
                ffo.unwrap()
            } else {
                params.friction_lerp as int
            };
            let vxa = spec_scale(vx, fr);
            if -(params.stop_threshold as int) <= vxa <= params.stop_threshold as int {
                0
            } else {
                vxa
            }
        } else {
            vx
        };
        let vy1 = if has_friction {
            spec_scale(vy, params.friction_lerp as int)
        } else {
            vy
        };
        let vy2 = if vy1 <= params.gravity as int {
            0
        } else {
            vy1
        };
        PolicyOut {
            vx: vx1,
            vy: vy2,
            frame_friction_override: if has_friction {
                None
            } else {
                ffo
            },
        }
    } else {
        PolicyOut { vx, vy, frame_friction_override: ffo }
    }
}

/// Gravity integration for airborne massive bodies, clamped at the terminal
/// velocity.
pub open spec fn spec_gravity(
    params: PhysicsParams,
    tf: int,
    has_mass: bool,
    grounded: bool,
    gravity: int,
    vy: int,
) -> int {
    if !grounded && has_mass {
        let v = vy - spec_scale(gravity, tf);
        if v < -(params.terminal_velocity as int) {
            -(params.terminal_velocity as int)
        } else {
            v
        }
    } else {
        vy
    }
}

/// The cosmetic spin rule: grounded circles roll proportionally to their
/// horizontal speed; airborne bodies of any shape spin at a constant rate;
/// grounded non-circles do not rotate. The angle stays in `[0, 360000)`.
pub open spec fn spec_rotation(
    rotation: int,
    can_rotate: bool,
    grounded: bool,
    shape: ColliderShape,
    vx: int,
    av: int,
) -> int {
    if can_rotate {
        let delta = if grounded {
            match shape {
                ColliderShape::Circle { .. } => spec_scale(
                    if vx < 0 {
                        -vx
                    } else {
                        vx
                    },
                    av,
                ),
                _ => 0,
            }
        } else {
            av * (FPS as int)
        };
        (rotation + delta) % 360_000
    } else {
        rotation
    }
}

/// The view of a fixed-point fraction override.
pub open spec fn opt_frac_view(o: Option<i64>) -> Option<int> {
    match o {
        Some(f) => Some(f as int),
        None => None,
    }
}

/// The complete effect of stepping one active, well-shaped body.
pub struct StepOut {
    pub position: SpecVec2,
    pub rotation: int,
    pub velocity: SpecVec2,
    pub frame_friction_override: Option<int>,
    pub is_on_ground: bool,
    pub was_on_ground: bool,
    pub is_on_platform: bool,
    pub fall_through: bool,
    pub seen_wood: bool,
    pub descent: bool,
    pub unresolved: bool,
    pub collided_x: bool,
    pub collided_y: bool,
    pub probe: TileCollisionKind,
}

/// The functional model of one mover step on an active body with a
/// well-formed shape: de-penetration, latch updates, the vertical-then-
/// horizontal move with bounce reflection, the ground classification, the
/// grounded velocity policy, gravity, and the spin rule, in that order.
#[verifier::opaque]
pub open spec fn spec_step_body(
    map: TileMap,
    params: PhysicsParams,
    tf: int,
    b: KinematicBody,
    t: Transform,
    c: Collider,
) -> StepOut {
    let mp = spec_move_phase(map, tf, b, t, c);
    let vy0 = if mp.collided_y {
        -spec_scale(b.velocity.y as int, b.bounciness as int)
    } else {
        b.velocity.y as int
    };
    let vx0 = if mp.collided_x {
        -spec_scale(b.velocity.x as int, b.bounciness as int)
    } else {
        b.velocity.x as int
    };
    let g = spec_ground_check(
        map,
        b.shape,
        mp.pos,
        SpecVec2 { x: vx0, y: vy0 },
        mp.seen_wood,
        b.fall_through,
        b.is_on_ground,
    );
    let p = spec_ground_policy(
        params,
        g.is_on_ground,
        b.has_friction,
        vx0,
        vy0,
        opt_frac_view(b.frame_friction_override),
    );
    let vy1 = spec_gravity(params, tf, b.has_mass, g.is_on_ground, b.gravity as int, p.vy);
    let rot = spec_rotation(
        t.rotation as int,
        b.can_rotate,
        g.is_on_ground,
        b.shape,
        p.vx,
        b.angular_velocity as int,
    );
    StepOut {
        position: mp.pos,
        rotation: rot,
        velocity: SpecVec2 { x: p.vx, y: vy1 },
        frame_friction_override: p.frame_friction_override,
        is_on_ground: g.is_on_ground,
        was_on_ground: g.was_on_ground,
        is_on_platform: g.is_on_platform,
        fall_through: g.fall_through,
        seen_wood: mp.seen_wood,
        descent: mp.descent,
        unresolved: mp.unresolved,
        collided_x: mp.collided_x,
        collided_y: mp.collided_y,
        probe: g.probe,
    }
}

/// How one tick treats the entity `e`'s body, transform and collider: the
/// mirror is required, deactivated bodies are skipped with their mirror
/// disabled, malformed shapes abort the step, and otherwise the step follows
/// [`spec_step_body`].
#[verifier::opaque]
pub open spec fn spec_stepped(
    map: TileMap,
    params: PhysicsParams,
    tf: int,
    b: KinematicBody,
    t: Transform,
    c_opt: Option<Collider>,
    nb_opt: Option<KinematicBody>,
    nt_opt: Option<Transform>,
    nc_opt: Option<Collider>,
    outcome: Result<bool, PhysicsError>,
) -> bool {
    match c_opt {
        None => {
            &&& outcome == Result::<bool, PhysicsError>::Err(PhysicsError::MissingMirror)
            &&& nb_opt == Some(b)
            &&& nt_opt == Some(t)
            &&& nc_opt is None
        },
        Some(c) => {
            if b.is_deactivated {
                &&& outcome == Result::<bool, PhysicsError>::Ok(false)
                &&& nb_opt == Some(b)
                &&& nt_opt == Some(t)
                &&& nc_opt == Some(Collider { disabled: true, ..c })
            } else if !b.shape.wf() {
                &&& outcome == Result::<bool, PhysicsError>::Err(PhysicsError::InvalidShapeQuery)
                &&& nb_opt == Some(b)
                &&& nt_opt == Some(t)
                &&& nc_opt == Some(Collider { disabled: false, ..c })
            } else {
                let s = spec_step_body(map, params, tf, b, t, c);
                &&& outcome == Result::<bool, PhysicsError>::Ok(s.unresolved)
                &&& (nt_opt matches Some(nt) && nt.position@ == s.position && nt.rotation
                    == s.rotation)
                &&& (nb_opt matches Some(nb) && nb.velocity@ == s.velocity && opt_frac_view(
                    nb.frame_friction_override,
                ) == s.frame_friction_override && nb.is_on_ground == s.is_on_ground
                    && nb.was_on_ground == s.was_on_ground && nb.is_on_platform == s.is_on_platform
                    && nb.fall_through == s.fall_through && nb.is_spawning == false && nb.shape
                    == b.shape && nb.angular_velocity == b.angular_velocity && nb.gravity
                    == b.gravity && nb.bounciness == b.bounciness && nb.has_mass == b.has_mass
                    && nb.has_friction == b.has_friction && nb.can_rotate == b.can_rotate
                    && nb.is_deactivated == b.is_deactivated)
                &&& (nc_opt matches Some(nc) && nc.shape == b.shape && nc.pos == c.pos
                    && nc.disabled == false && nc.seen_wood == s.seen_wood && nc.descent
                    == s.descent)
            }
        },
    }
}

/// Scaling a velocity by a time factor stays within one move.
proof fn lemma_scale_move_bound(v: int, f: int)
    requires
        -MAX_VEL <= v <= MAX_VEL,
        0 <= f <= MAX_TIME_FACTOR,
    ensures
        -MAX_MOVE <= spec_scale(v, f) <= MAX_MOVE,
{
    let p = v * f;
    assert(-16_000_000_000_000 <= v * f <= 16_000_000_000_000) by (nonlinear_arith)
        requires
            -1_000_000_000 <= v <= 1_000_000_000,
            0 <= f <= 16_000,
    ;
    if p >= 0 {
        vstd::arithmetic::div_mod::lemma_div_pos_is_pos(p, FP_ONE as int);
        vstd::arithmetic::div_mod::lemma_div_is_ordered(p, 16_000_000_000_000, FP_ONE as int);
    } else {
        vstd::arithmetic::div_mod::lemma_div_pos_is_pos(-p, FP_ONE as int);
        vstd::arithmetic::div_mod::lemma_div_is_ordered(-p, 16_000_000_000_000, FP_ONE as int);
    }
}

/// Classify the ground contact at the post-move position and integrate the
/// grounded velocity policy, gravity, and the spin rule, producing the
/// body's new state and the transform's new rotation.
fn ground_and_integrate(
    map: &TileMap,
    params: &PhysicsParams,
    time_factor: i64,
    b: &KinematicBody,
    t3: Transform,
    seen_wood: bool,
    vx0: i64,
    vy0: i64,
) -> (r: (KinematicBody, i64))
    requires
        map.wf(),
        params.wf(),
        b.wf(),
        b.shape.wf(),
        0 <= time_factor <= MAX_TIME_FACTOR,
        t3.position@.in_move_range(),
        0 <= t3.rotation < 360_000,
        -MAX_VEL <= vx0 <= MAX_VEL,
        -MAX_VEL <= vy0 <= MAX_VEL,
    ensures
        ({
            let g = spec_ground_check(
                *map,
                b.shape,
                t3.position@,
                SpecVec2 { x: vx0 as int, y: vy0 as int },
                seen_wood,
                b.fall_through,
                b.is_on_ground,
            );
            let p = spec_ground_policy(
                *params,
                g.is_on_ground,
                b.has_friction,
                vx0 as int,
                vy0 as int,
                opt_frac_view(b.frame_friction_override),
            );
            let vy1 = spec_gravity(
                *params,
                time_factor as int,
                b.has_mass,
                g.is_on_ground,
                b.gravity as int,
                p.vy,
            );
            let rot = spec_rotation(
                t3.rotation as int,
                b.can_rotate,
                g.is_on_ground,
                b.shape,
                p.vx,
                b.angular_velocity as int,
            );
            &&& r.0.velocity@ == SpecVec2 { x: p.vx, y: vy1 }
            &&& opt_frac_view(r.0.frame_friction_override) == p.frame_friction_override
            &&& r.0.is_on_ground == g.is_on_ground
            &&& r.0.was_on_ground == g.was_on_ground
            &&& r.0.is_on_platform == g.is_on_platform
            &&& r.0.fall_through == g.fall_through
            &&& r.0.is_spawning == false
            &&& r.0.shape == b.shape
            &&& r.0.angular_velocity == b.angular_velocity
            &&& r.0.gravity == b.gravity
            &&& r.0.bounciness == b.bounciness
            &&& r.0.has_mass == b.has_mass
            &&& r.0.has_friction == b.has_friction
            &&& r.0.can_rotate == b.can_rotate
            &&& r.0.is_deactivated == b.is_deactivated
            &&& r.1 as int == rot
            &&& r.0.wf()
        }),
{
    // The wedge check: a motionless body still overlapping a jump-through
    // tile starts falling through next tick.
    let mut fall_through: bool = b.fall_through;
    if vx0 == 0 && vy0 == 0 {
        let k = map.collision_rect(
            &b.shape.aabb_at(t3.position),
            TileFilter::OnlyJumpThrough,
        );
        proof {
            crate::shape::lemma_aabb_extent(b.shape, t3.position@);
        }
        if matches!(k, TileCollisionKind::JumpThrough) {
            fall_through = true;
        }
    }
    let was_on_ground: bool = b.is_on_ground;
    // Probe one tenth of a unit below the body; once the body has passed
    // through a platform, jump-through tiles are excluded from the probe.
    let probe_pos = Vec2 { x: t3.position.x, y: t3.position.y - PROBE_OFFSET };
    let filter: TileFilter = if seen_wood {
        TileFilter::ExcludeJumpThrough
    } else {
        TileFilter::Any
    };
    let rect = b.shape.aabb_at(probe_pos);
    proof {
        crate::shape::lemma_aabb_extent(b.shape, probe_pos@);
    }
    let tile: TileCollisionKind = map.collision_rect(&rect, filter);
    let on_jt: bool = matches!(tile, TileCollisionKind::JumpThrough);
    let is_on_ground: bool = !matches!(tile, TileCollisionKind::Empty) && !(on_jt && fall_through);
    let is_on_platform: bool = is_on_ground && on_jt;
    // Grounded velocity policy.
    let mut vx: i64 = vx0;
    let mut vy: i64 = vy0;
    let mut ffo: Option<i64> = b.frame_friction_override;
    if is_on_ground {
        if b.has_friction {
            let fr: i64 = match ffo {
                Some(f) => f,
                None => params.friction_lerp,
            };
            proof {
                crate::geom::lemma_scale_bounded(vx as int, fr as int);
                crate::geom::lemma_scale_bounded(vy as int, params.friction_lerp as int);
            }
            vx = scale_by_frac(vx, fr);
            ffo = None;
            let avx: i64 = if vx < 0 {
                -vx
            } else {
                vx
            };
            if avx <= params.stop_threshold {
                vx = 0;
            }
            vy = scale_by_frac(vy, params.friction_lerp);
        }
        if vy <= params.gravity {
            vy = 0;
        }
    }
    // Gravity for airborne massive bodies, clamped at terminal velocity.
    if !is_on_ground && b.has_mass {
        proof {
            lemma_scale_move_bound(b.gravity as int, time_factor as int);
        }
        vy = vy - scale_by_frac(b.gravity, time_factor);
        if vy < -params.terminal_velocity {
            vy = -params.terminal_velocity;
        }
    }
    // Cosmetic spin.
    let mut t5: Transform = t3;
    if b.can_rotate {
        apply_rotation(&mut t5, Vec2 { x: vx, y: vy }, b.angular_velocity, is_on_ground, b.shape);
    }
    let nb = KinematicBody {
        velocity: Vec2 { x: vx, y: vy },
        frame_friction_override: ffo,
        is_on_ground,
        was_on_ground,
        is_on_platform,
        fall_through,
        is_spawning: false,
        ..*b
    };
    (nb, t5.rotation)
}

/// The movement half of one step for entity `e`: de-penetrate a massive
/// body, resync the mirror's shape from the body, apply the spawn teleport
/// and the fall-through descent, then move vertically and horizontally.
/// Returns `(unresolved, collided_y, collided_x)`.
#[verifier::rlimit(100)]
fn move_phase(
    world: &mut CollisionWorld,
    transforms: &mut Vec<Option<Transform>>,
    e: usize,
    b: &KinematicBody,
    time_factor: i64,
) -> (r: (bool, bool, bool))
    requires
        old(world).wf(),
        b.wf(),
        b.shape.wf(),
        0 <= time_factor <= MAX_TIME_FACTOR,
        old(transforms)@.len() == old(world).colliders@.len(),
        e < old(world).colliders@.len(),
        old(world).colliders@[e as int].is_some(),
        old(transforms)@[e as int].is_some(),
        old(transforms)@[e as int].unwrap().wf(),
    ensures
        final(world).wf(),
        final(world).map == old(world).map,
        final(world).actors == old(world).actors,
        final(world).colliders@.len() == old(world).colliders@.len(),
        final(transforms)@.len() == old(transforms)@.len(),
        forall|i: int|
            0 <= i < old(world).colliders@.len() && i != e ==> final(world).colliders@[i] == old(
                world,
            ).colliders@[i],
        forall|i: int|
            0 <= i < old(transforms)@.len() && i != e ==> final(transforms)@[i] == old(
                transforms,
            )@[i],
        ({
            let c = old(world).colliders@[e as int].unwrap();
            let t = old(transforms)@[e as int].unwrap();
            let mp = spec_move_phase(old(world).map, time_factor as int, *b, t, c);
            &&& final(transforms)@[e as int].is_some()
            &&& final(transforms)@[e as int].unwrap().position@ == mp.pos
            &&& final(transforms)@[e as int].unwrap().position@.in_move_range()
            &&& final(transforms)@[e as int].unwrap().rotation == t.rotation
            &&& final(world).colliders@[e as int] == Some(
                Collider { shape: b.shape, seen_wood: mp.seen_wood, descent: mp.descent, ..c },
            )
            &&& r == (mp.unresolved, mp.collided_y, mp.collided_x)
        }),
{
    let t: Transform = transforms[e].unwrap();
    let ghost c0: Collider = world.colliders@[e as int].unwrap();
    // Shove massive bodies out of the walls they overlap.
    let mut unresolved: bool = false;
    if b.has_mass {
        let (corrected, gave_up) = depenetrate(&world.map, &b.shape, t.position);
        unresolved = gave_up;
        transforms[e] = Some(Transform { position: corrected, rotation: t.rotation });
    }
    // The body's shape is authoritative; resync the mirror.
    {
        let c1: Collider = world.colliders[e].unwrap();
        world.colliders[e] = Some(Collider { shape: b.shape, ..c1 });
    }
    // A spawning body is treated as just teleported, exactly once.
    if b.is_spawning {
        world.handle_teleport(e);
    }
    if b.fall_through {
        world.descent(e);
    }
    // Axis-ordered move: vertical first; the horizontal move clears the
    // passage latches, which the vertical move must still observe.
    let dv: i64 = scale_by_frac(b.velocity.y, time_factor);
    let dh: i64 = scale_by_frac(b.velocity.x, time_factor);
    proof {
        lemma_scale_move_bound(b.velocity.y as int, time_factor as int);
        lemma_scale_move_bound(b.velocity.x as int, time_factor as int);
    }
    let collided_y: bool = world.move_vertical(transforms, e, dv);
    proof {
        // Establish the position range for the horizontal move.
        let d = if b.has_mass {
            spec_depen(old(world).map, b.shape, t.position@, DEPEN_MAX_ITERS as nat)
        } else {
            DepenOutcome { pos: t.position@, unresolved: false }
        };
        lemma_move_v_bounds(
            old(world).map,
            b.shape,
            d.pos,
            (if dv < 0 {
                -(dv as int)
            } else {
                dv as int
            }) as nat,
            dv < 0,
            (if b.is_spawning {
                false
            } else {
                c0.seen_wood
            }),
            (if b.fall_through {
                true
            } else {
                if b.is_spawning {
                    false
                } else {
                    c0.descent
                }
            }),
        );
    }
    let collided_x: bool = world.move_horizontal(transforms, e, dh);
    proof {
        let d = if b.has_mass {
            spec_depen(old(world).map, b.shape, t.position@, DEPEN_MAX_ITERS as nat)
        } else {
            DepenOutcome { pos: t.position@, unresolved: false }
        };
        let mv = spec_move_v(
            old(world).map,
            b.shape,
            d.pos,
            (if dv < 0 {
                -(dv as int)
            } else {
                dv as int
            }) as nat,
            dv < 0,
            (if b.is_spawning {
                false
            } else {
                c0.seen_wood
            }),
            (if b.fall_through {
                true
            } else {
                if b.is_spawning {
                    false
                } else {
                    c0.descent
                }
            }),
        );
        lemma_move_h_bounds(
            old(world).map,
            b.shape,
            mv.pos,
            (if dh < 0 {
                -(dh as int)
            } else {
                dh as int
            }) as nat,
            dh < 0,
        );
    }
    (unresolved, collided_y, collided_x)
}

/// Step one body through a whole tick: sync the mirror's disabled flag and
/// shape, de-penetrate massive bodies, apply the spawn teleport and the
/// fall-through descent, move vertically then horizontally with bounce
/// reflection, classify the ground contact, apply the grounded velocity
/// policy, gravity, and the spin rule.
///
/// Returns `Ok(unresolved)` where `unresolved` reports a de-penetration
/// give-up (the body is left overlapping and the tick goes on), or an error
/// when the body has no collider mirror or a malformed shape.
#[verifier::rlimit(100)]
pub fn step_body(
    world: &mut CollisionWorld,
    bodies: &mut Vec<Option<KinematicBody>>,
    transforms: &mut Vec<Option<Transform>>,
    params: &PhysicsParams,
    time_factor: i64,
    e: usize,
) -> (r: Result<bool, PhysicsError>)
    requires
        old(world).wf(),
        params.wf(),
        0 <= time_factor <= MAX_TIME_FACTOR,
        old(bodies)@.len() == old(world).colliders@.len(),
        old(transforms)@.len() == old(world).colliders@.len(),
        e < old(bodies)@.len(),
        old(bodies)@[e as int].is_some(),
        old(bodies)@[e as int].unwrap().wf(),
        old(transforms)@[e as int].is_some(),
        old(transforms)@[e as int].unwrap().wf(),
    ensures
        final(world).wf(),
        final(world).map == old(world).map,
        final(world).actors == old(world).actors,
        final(world).colliders@.len() == old(world).colliders@.len(),
        final(bodies)@.len() == old(bodies)@.len(),
        final(transforms)@.len() == old(transforms)@.len(),
        forall|i: int|
            0 <= i < old(world).colliders@.len() && i != e ==> final(world).colliders@[i] == old(
                world,
            ).colliders@[i],
        forall|i: int|
            0 <= i < old(bodies)@.len() && i != e ==> final(bodies)@[i] == old(bodies)@[i],
        forall|i: int|
            0 <= i < old(transforms)@.len() && i != e ==> final(transforms)@[i] == old(
                transforms,
            )@[i],
        spec_stepped(
            old(world).map,
            *params,
            time_factor as int,
            old(bodies)@[e as int].unwrap(),
            old(transforms)@[e as int].unwrap(),
            old(world).colliders@[e as int],
            final(bodies)@[e as int],
            final(transforms)@[e as int],
            final(world).colliders@[e as int],
            r,
        ),
        r == spec_entity_outcome(
            old(world).map,
            *params,
            time_factor as int,
            old(bodies)@[e as int].unwrap(),
            old(transforms)@[e as int].unwrap(),
            old(world).colliders@[e as int],
        ),
        final(bodies)@[e as int].is_some(),
        final(bodies)@[e as int].unwrap().wf(),
        final(transforms)@[e as int].is_some(),
{
    proof {
        reveal(spec_step_body);
        reveal(spec_stepped);
    }
    let b: KinematicBody = bodies[e].unwrap();
    let t: Transform = transforms[e].unwrap();
    let c_opt: Option<Collider> = world.colliders[e];
    let c: Collider = match c_opt {
        Some(c) => c,
        None => {
            return Err(PhysicsError::MissingMirror);
        },
    };
    // Sync the mirror's disabled flag; deactivated bodies are skipped.
    if b.is_deactivated {
        world.colliders[e] = Some(Collider { disabled: true, ..c });
        return Ok(false);
    }
    world.colliders[e] = Some(Collider { disabled: false, ..c });
    if !b.shape.is_wf() {
        return Err(PhysicsError::InvalidShapeQuery);
    }
    let (unresolved, collided_y, collided_x) = move_phase(world, transforms, e, &b, time_factor);
    // Bounce: a truncated move reflects the velocity on that axis, scaled by
    // the body's bounciness.
    let mut vy: i64 = b.velocity.y;
    if collided_y {
        proof {
            crate::geom::lemma_scale_bounded(b.velocity.y as int, b.bounciness as int);
        }
        vy = -scale_by_frac(b.velocity.y, b.bounciness);
    }
    let mut vx: i64 = b.velocity.x;
    if collided_x {
        proof {
            crate::geom::lemma_scale_bounded(b.velocity.x as int, b.bounciness as int);
        }
        vx = -scale_by_frac(b.velocity.x, b.bounciness);
    }
    // Ground classification and velocity integration at the post-move
    // position.
    let t3: Transform = transforms[e].unwrap();
    let c5: Collider = world.get_collider(e);
    let (nb, rot) = ground_and_integrate(
        &world.map,
        params,
        time_factor,
        &b,
        t3,
        c5.seen_wood,
        vx,
        vy,
    );
    transforms[e] = Some(Transform { position: t3.position, rotation: rot });
    bodies[e] = Some(nb);
    Ok(unresolved)
}

/// The outcome that one tick owes entity `e`'s body, given its collider
/// mirror after the spatial-index sync.
pub open spec fn spec_entity_outcome(
    map: TileMap,
    params: PhysicsParams,
    tf: int,
    b: KinematicBody,
    t: Transform,
    c_opt: Option<Collider>,
) -> Result<bool, PhysicsError> {
    if c_opt is None {
        Err(PhysicsError::MissingMirror)
    } else if b.is_deactivated {
        Ok(false)
    } else if !b.shape.wf() {
        Err(PhysicsError::InvalidShapeQuery)
    } else {
        Ok(spec_step_body(map, params, tf, b, t, c_opt.unwrap()).unresolved)
    }
}

/// The anomaly one tick records for entity `e`, if any: a failed step's
/// error, or an unresolved overlap.
pub open spec fn spec_anomaly_of(
    map: TileMap,
    params: PhysicsParams,
    tf: int,
    b: KinematicBody,
    t: Transform,
    c_opt: Option<Collider>,
) -> Option<PhysicsError> {
    match spec_entity_outcome(map, params, tf, b, t, c_opt) {
        Err(er) => Some(er),
        Ok(true) => Some(PhysicsError::UnresolvableOverlap),
        Ok(false) => None,
    }
}

/// How one tick treats entity `i` as a whole: the collider is synced from
/// the transform, and an entity with a body is stepped as
/// [`spec_stepped`] describes.
pub open spec fn spec_ticked_entity(
    map: TileMap,
    params: PhysicsParams,
    tf: int,
    ob: Option<KinematicBody>,
    ot: Option<Transform>,
    oc: Option<Collider>,
    nb: Option<KinematicBody>,
    nt: Option<Transform>,
    nc: Option<Collider>,
) -> bool {
    let synced = crate::world::spec_synced(oc, ot);
    match ob {
        None => nb == ob && nt == ot && nc == synced,
        Some(b) => spec_stepped(
            map,
            params,
            tf,
            b,
            ot.unwrap(),
            synced,
            nb,
            nt,
            nc,
            spec_entity_outcome(map, params, tf, b, ot.unwrap(), synced),
        ),
    }
}

/// The anomaly list a tick produces for the first `n` entities, in entity
/// order.
pub open spec fn spec_anomalies_upto(
    map: TileMap,
    params: PhysicsParams,
    tf: int,
    bodies: Seq<Option<KinematicBody>>,
    transforms: Seq<Option<Transform>>,
    colliders: Seq<Option<Collider>>,
    n: int,
) -> Seq<BodyAnomaly>
    decreases n,
{
    if n <= 0 {
        Seq::empty()
    } else {
        let prefix = spec_anomalies_upto(map, params, tf, bodies, transforms, colliders, n - 1);
        match bodies[n - 1] {
            None => prefix,
            Some(b) => {
                match spec_anomaly_of(
                    map,
                    params,
                    tf,
                    b,
                    transforms[n - 1].unwrap(),
                    crate::world::spec_synced(colliders[n - 1], transforms[n - 1]),
                ) {
                    Some(er) => prefix.push(BodyAnomaly { entity: (n - 1) as usize, error: er }),
                    None => prefix,
                }
            },
        }
    }
}

/// Hydrate newly added bodies: every entity that has a body but no collider
/// mirror receives a fresh mirror with the body's shape and cleared passage
/// memory, and is registered as an actor. Existing mirrors are untouched.
pub fn hydrate_physics_bodies(bodies: &Vec<Option<KinematicBody>>, world: &mut CollisionWorld)
    requires
        old(world).wf(),
        bodies@.len() == old(world).colliders@.len(),
    ensures
        final(world).wf(),
        final(world).map == old(world).map,
        final(world).colliders@.len() == old(world).colliders@.len(),
        forall|i: int|
            0 <= i < bodies@.len() && bodies@[i].is_some() && old(world).colliders@[i].is_none()
                ==> final(world).colliders@[i] == Some(
                Collider {
                    shape: bodies@[i].unwrap().shape,
                    pos: Vec2 { x: 0, y: 0 },
                    disabled: false,
                    seen_wood: false,
                    descent: false,
                },
            ) && final(world).actors@[i] == Some(Actor),
        forall|i: int|
            0 <= i < bodies@.len() && !(bodies@[i].is_some() && old(world).colliders@[i].is_none())
                ==> final(world).colliders@[i] == old(world).colliders@[i]
                    && final(world).actors@[i] == old(world).actors@[i],
{
    let n: usize = world.colliders.len();
    let mut k: usize = 0;
    while k < n
        invariant
            world.wf(),
            n == world.colliders@.len(),
            n == old(world).colliders@.len(),
            bodies@.len() == n,
            k <= n,
            world.map == old(world).map,
            forall|i: int|
                0 <= i < k && bodies@[i].is_some() && old(world).colliders@[i].is_none()
                    ==> world.colliders@[i] == Some(
                    Collider {
                        shape: bodies@[i].unwrap().shape,
                        pos: Vec2 { x: 0, y: 0 },
                        disabled: false,
                        seen_wood: false,
                        descent: false,
                    },
                ) && world.actors@[i] == Some(Actor),
            forall|i: int|
                0 <= i < k && !(bodies@[i].is_some() && old(world).colliders@[i].is_none())
                    ==> world.colliders@[i] == old(world).colliders@[i] && world.actors@[i] == old(
                    world,
                ).actors@[i],
            forall|i: int|
                k <= i < n ==> world.colliders@[i] == old(world).colliders@[i]
                    && world.actors@[i] == old(world).actors@[i],
        decreases n - k,
    {
        let needs_mirror: bool = bodies[k].is_some() && world.colliders[k].is_none();
        if needs_mirror {
            let body: KinematicBody = bodies[k].unwrap();
            world.colliders[k] = Some(Collider::new(body.shape));
            world.actors[k] = Some(Actor);
        }
        k = k + 1;
    }
}

/// Run one simulation tick over every entity: resynchronize the spatial
/// index once, then step each body in entity order. Returns the anomalies
/// of the tick, in entity order: a missing mirror or a malformed shape
/// aborts that body's step; an unresolved overlap is reported and the body
/// is left overlapping.
#[verifier::rlimit(100)]
pub fn update_kinematic_bodies(
    world: &mut CollisionWorld,
    bodies: &mut Vec<Option<KinematicBody>>,
    transforms: &mut Vec<Option<Transform>>,
    params: &PhysicsParams,
    time_factor: i64,
) -> (anomalies: Vec<BodyAnomaly>)
    requires
        old(world).wf(),
        params.wf(),
        0 <= time_factor <= MAX_TIME_FACTOR,
        old(bodies)@.len() == old(world).colliders@.len(),
        old(transforms)@.len() == old(world).colliders@.len(),
        forall|i: int|
            0 <= i < old(bodies)@.len() && (#[trigger] old(bodies)@[i]).is_some() ==> old(
                bodies,
            )@[i].unwrap().wf() && old(transforms)@[i].is_some() && old(
                transforms,
            )@[i].unwrap().wf(),
    ensures
        final(world).wf(),
        final(world).map == old(world).map,
        final(world).actors == old(world).actors,
        final(world).colliders@.len() == old(world).colliders@.len(),
        final(bodies)@.len() == old(bodies)@.len(),
        final(transforms)@.len() == old(transforms)@.len(),
        forall|i: int|
            0 <= i < old(bodies)@.len() ==> #[trigger] spec_ticked_entity(
                old(world).map,
                *params,
                time_factor as int,
                old(bodies)@[i],
                old(transforms)@[i],
                old(world).colliders@[i],
                final(bodies)@[i],
                final(transforms)@[i],
                final(world).colliders@[i],
            ),
        anomalies@ == spec_anomalies_upto(
            old(world).map,
            *params,
            time_factor as int,
            old(bodies)@,
            old(transforms)@,
            old(world).colliders@,
            old(bodies)@.len() as int,
        ),
{
    world.update(transforms);
    let n: usize = bodies.len();
    let mut anomalies: Vec<BodyAnomaly> = Vec::new();
    let mut k: usize = 0;
    while k < n
        invariant
            world.wf(),
            params.wf(),
            0 <= time_factor <= MAX_TIME_FACTOR,
            n == old(bodies)@.len(),
            k <= n,
            bodies@.len() == n,
            transforms@.len() == n,
            world.colliders@.len() == n,
            world.map == old(world).map,
            world.actors == old(world).actors,
            forall|i: int|
                0 <= i < n && (#[trigger] old(bodies)@[i]).is_some() ==> old(
                    bodies,
                )@[i].unwrap().wf() && old(transforms)@[i].is_some() && old(
                    transforms,
                )@[i].unwrap().wf(),
            forall|i: int| k <= i < n ==> bodies@[i] == old(bodies)@[i],
            forall|i: int| k <= i < n ==> transforms@[i] == old(transforms)@[i],
            forall|i: int|
                k <= i < n ==> world.colliders@[i] == crate::world::spec_synced(
                    old(world).colliders@[i],
                    old(transforms)@[i],
                ),
            forall|i: int|
                0 <= i < k ==> #[trigger] spec_ticked_entity(
                    old(world).map,
                    *params,
                    time_factor as int,
                    old(bodies)@[i],
                    old(transforms)@[i],
                    old(world).colliders@[i],
                    bodies@[i],
                    transforms@[i],
                    world.colliders@[i],
                ),
            anomalies@ == spec_anomalies_upto(
                old(world).map,
                *params,
                time_factor as int,
                old(bodies)@,
                old(transforms)@,
                old(world).colliders@,
                k as int,
            ),
        decreases n - k,
    {
        let has_body: bool = bodies[k].is_some();
        if has_body {
            let r: Result<bool, PhysicsError> = step_body(
                world,
                bodies,
                transforms,
                params,
                time_factor,
                k,
            );
            match r {
                Err(err) => {
                    anomalies.push(BodyAnomaly { entity: k, error: err });
                },
                Ok(true) => {
                    anomalies.push(BodyAnomaly { entity: k, error: PhysicsError::UnresolvableOverlap });
                },
                Ok(false) => {},
            }
        }
        k = k + 1;
    }
    anomalies
}

/// Helper function to apply the spin rule to a body's transform.
pub fn apply_rotation(
    transform: &mut Transform,
    velocity: Vec2,
    angular_velocity: i64,
    is_on_ground: bool,
    collider_shape: ColliderShape,
)
    requires
        0 <= old(transform).rotation < 360_000,
        velocity@.in_vel_range(),
        -MAX_FRAC <= angular_velocity <= MAX_FRAC,
    ensures
        final(transform).position == old(transform).position,
        final(transform).rotation as int == spec_rotation(
            old(transform).rotation as int,
            true,
            is_on_ground,
            collider_shape,
            velocity.x as int,
            angular_velocity as int,
        ),
        0 <= final(transform).rotation < 360_000,
{
    let mut delta: i64 = 0;
    if is_on_ground {
        if matches!(collider_shape, ColliderShape::Circle { .. }) {
            let a: i64 = if velocity.x < 0 {
                -velocity.x
            } else {
                velocity.x
            };
            delta = scale_by_frac(a, angular_velocity);
            proof {
                crate::geom::lemma_scale_magnitude(a as int, angular_velocity as int);
            }
        }
    } else {
        delta = angular_velocity * FPS;
    }
    transform.rotation = mod_euclid(transform.rotation + delta, 360_000);
}

/// A body without mass is unaffected by gravity integration: two bodies
/// that differ only in their gravity parameter step to identical states, on
/// every map and on every tick.
pub proof fn lemma_massless_ignores_gravity(
    map: TileMap,
    params: PhysicsParams,
    tf: int,
    b1: KinematicBody,
    b2: KinematicBody,
    t: Transform,
    c: Collider,
)
    requires
        !b1.has_mass,
        b2 == (KinematicBody { gravity: b2.gravity, ..b1 }),
    ensures
        spec_step_body(map, params, tf, b1, t, c) == spec_step_body(map, params, tf, b2, t, c),
{
    reveal(spec_step_body);
    assert(spec_move_phase(map, tf, b1, t, c) == spec_move_phase(map, tf, b2, t, c));
}

/// A massless body whose vertical velocity is zero keeps its vertical
/// position and its zero vertical velocity across a tick, as long as it is
/// not standing on solid ground that damps it differently — in fact the
/// vertical position is kept in every case, because no gravity, no vertical
/// motion and no de-penetration applies.
pub proof fn lemma_massless_keeps_height(
    map: TileMap,
    params: PhysicsParams,
    tf: int,
    b: KinematicBody,
    t: Transform,
    c: Collider,
)
    requires
        !b.has_mass,
        b.velocity.y == 0,
    ensures
        spec_step_body(map, params, tf, b, t, c).position.y == t.position@.y,
{
    reveal(spec_step_body);
    crate::geom::lemma_scale_trivial(b.velocity.y as int, tf);
    let mp = spec_move_phase(map, tf, b, t, c);
    let dh = spec_scale(b.velocity.x as int, tf);
    crate::world::lemma_move_h_bounds(
        map,
        b.shape,
        t.position@,
        (if dh < 0 {
            -dh
        } else {
            dh
        }) as nat,
        dh < 0,
    );
}

/// In open space, a massive body at rest starts to fall: after one tick its
/// vertical velocity is negative (gravity scaled by the time factor, capped
/// at the terminal velocity) and its position is unchanged.
pub proof fn lemma_free_fall_accelerates(
    map: TileMap,
    params: PhysicsParams,
    tf: int,
    b: KinematicBody,
    t: Transform,
    c: Collider,
)
    requires
        forall|i: int, j: int| #[trigger] map.kind_at(i, j) == TileCollisionKind::Empty,
        b.velocity == (Vec2 { x: 0, y: 0 }),
        b.has_mass,
        spec_scale(b.gravity as int, tf) >= 1,
        params.terminal_velocity >= 1,
    ensures
        ({
            let r = spec_step_body(map, params, tf, b, t, c);
            &&& r.position == t.position@
            &&& r.velocity.x == 0
            &&& r.velocity.y < 0
            &&& r.velocity.y == (if spec_scale(b.gravity as int, tf) > params.terminal_velocity {
                -(params.terminal_velocity as int)
            } else {
                -spec_scale(b.gravity as int, tf)
            })
            &&& !r.is_on_ground
        }),
{
    reveal(spec_step_body);
    crate::geom::lemma_scale_trivial(0, tf);
    crate::tile::lemma_empty_map_collision(
        map,
        b.shape.spec_aabb(t.position@),
        TileFilter::Any,
    );
    crate::tile::lemma_empty_map_collision(
        map,
        b.shape.spec_aabb(t.position@),
        TileFilter::OnlyJumpThrough,
    );
    crate::tile::lemma_empty_map_collision(
        map,
        b.shape.spec_aabb(SpecVec2 { x: t.position@.x, y: t.position@.y - PROBE_OFFSET }),
        TileFilter::Any,
    );
    crate::tile::lemma_empty_map_collision(
        map,
        b.shape.spec_aabb(SpecVec2 { x: t.position@.x, y: t.position@.y - PROBE_OFFSET }),
        TileFilter::ExcludeJumpThrough,
    );
}

/// In open space, a moving body covers exactly its velocity scaled by the
/// time factor: with no horizontal velocity, the vertical position changes
/// by that amount and nothing blocks the motion.
pub proof fn lemma_free_fall_displaces(
    map: TileMap,
    params: PhysicsParams,
    tf: int,
    b: KinematicBody,
    t: Transform,
    c: Collider,
)
    requires
        forall|i: int, j: int| #[trigger] map.kind_at(i, j) == TileCollisionKind::Empty,
        b.velocity.x == 0,
    ensures
        ({
            let r = spec_step_body(map, params, tf, b, t, c);
            &&& r.position.y == t.position@.y + spec_scale(b.velocity.y as int, tf)
            &&& r.position.x == t.position@.x
            &&& !r.collided_x
            &&& !r.collided_y
        }),
{
    reveal(spec_step_body);
    crate::geom::lemma_scale_trivial(0, tf);
    crate::tile::lemma_empty_map_collision(
        map,
        b.shape.spec_aabb(t.position@),
        TileFilter::Any,
    );
    let dv = spec_scale(b.velocity.y as int, tf);
    crate::world::lemma_move_v_free(
        map,
        b.shape,
        t.position@,
        (if dv < 0 {
            -dv
        } else {
            dv
        }) as nat,
        dv < 0,
        (if b.is_spawning {
            false
        } else {
            c.seen_wood
        }),
        (if b.fall_through {
            true
        } else {
            if b.is_spawning {
                false
            } else {
                c.descent
            }
        }),
    );
}

/// A resting body stays at rest: a body with zero velocity and friction,
/// standing on solid ground and not inside a wall, still has zero velocity
/// and the same position after the tick, and reads as grounded. The
/// conclusion re-establishes every hypothesis, so it holds over any number
/// of ticks.
pub proof fn lemma_resting_body_stays_at_rest(
    map: TileMap,
    params: PhysicsParams,
    tf: int,
    b: KinematicBody,
    t: Transform,
    c: Collider,
)
    requires
        params.wf(),
        b.velocity == (Vec2 { x: 0, y: 0 }),
        b.has_friction,
        !b.is_spawning,
        !c.seen_wood,
        map.spec_collision(b.shape.spec_aabb(t.position@), TileFilter::Any)
            != TileCollisionKind::Solid,
        map.spec_collision(
            b.shape.spec_aabb(SpecVec2 { x: t.position@.x, y: t.position@.y - PROBE_OFFSET }),
            TileFilter::Any,
        ) == TileCollisionKind::Solid,
    ensures
        ({
            let r = spec_step_body(map, params, tf, b, t, c);
            &&& r.velocity == (SpecVec2 { x: 0, y: 0 })
            &&& r.position == t.position@
            &&& r.is_on_ground
            &&& !r.seen_wood
        }),
{
    reveal(spec_step_body);
    crate::geom::lemma_scale_trivial(0, tf);
    let p = spec_ground_policy(
        params,
        true,
        true,
        0,
        0,
        opt_frac_view(b.frame_friction_override),
    );
    if b.frame_friction_override is Some {
        crate::geom::lemma_scale_trivial(0, b.frame_friction_override.unwrap() as int);
    }
    crate::geom::lemma_scale_trivial(0, params.friction_lerp as int);
}

/// Bouncing off a wall reflects the horizontal velocity, scaled by the
/// body's bounciness: whenever the horizontal move was truncated and ground
/// friction does not interfere, the new horizontal velocity is exactly the
/// negated scaled old one.
pub proof fn lemma_bounce_reflects_horizontal_velocity(
    map: TileMap,
    params: PhysicsParams,
    tf: int,
    b: KinematicBody,
    t: Transform,
    c: Collider,
)
    ensures
        ({
            let r = spec_step_body(map, params, tf, b, t, c);
            (r.collided_x && (!r.is_on_ground || !b.has_friction)) ==> r.velocity.x
                == -spec_scale(b.velocity.x as int, b.bounciness as int)
        }),
{
    reveal(spec_step_body);
}

/// A body that is falling through reads as airborne: whenever the ground
/// probe hits a jump-through tile while the fall-through flag is set, the
/// body is neither grounded nor on a platform.
pub proof fn lemma_fall_through_reads_airborne(
    map: TileMap,
    params: PhysicsParams,
    tf: int,
    b: KinematicBody,
    t: Transform,
    c: Collider,
)
    ensures
        ({
            let r = spec_step_body(map, params, tf, b, t, c);
            (r.fall_through && r.probe == TileCollisionKind::JumpThrough) ==> (!r.is_on_ground
                && !r.is_on_platform)
        }),
{
    reveal(spec_step_body);
}

/// The spawn teleport leaves no stale passage memory: a body spawned at
/// rest with the fall-through flag set, inside or above jump-through tiles
/// only, ends the tick with its passage latch clear and reads as airborne.
pub proof fn lemma_spawn_clears_passage_memory(
    map: TileMap,
    params: PhysicsParams,
    tf: int,
    b: KinematicBody,
    t: Transform,
    c: Collider,
)
    requires
        b.is_spawning,
        b.fall_through,
        b.velocity == (Vec2 { x: 0, y: 0 }),
        map.spec_collision(b.shape.spec_aabb(t.position@), TileFilter::Any)
            != TileCollisionKind::Solid,
        map.spec_collision(
            b.shape.spec_aabb(SpecVec2 { x: t.position@.x, y: t.position@.y - PROBE_OFFSET }),
            TileFilter::Any,
        ) != TileCollisionKind::Solid,
    ensures
        ({
            let r = spec_step_body(map, params, tf, b, t, c);
            &&& !r.is_on_ground
            &&& !r.is_on_platform
            &&& !r.seen_wood
        }),
{
    reveal(spec_step_body);
    crate::geom::lemma_scale_trivial(0, tf);
}

/// Re-running the ground-classification block on an unmoved body yields the
/// same classification: the wedge check stabilizes the fall-through flag
/// after one run, and the probe is a pure function of the unchanged
/// position and latches.
pub proof fn lemma_ground_check_idempotent(
    map: TileMap,
    shape: ColliderShape,
    pos: SpecVec2,
    vel: SpecVec2,
    seen_wood: bool,
    fall_through: bool,
    was_grounded: bool,
)
    ensures
        ({
            let g1 = spec_ground_check(map, shape, pos, vel, seen_wood, fall_through, was_grounded);
            let g2 = spec_ground_check(
                map,
                shape,
                pos,
                vel,
                seen_wood,
                g1.fall_through,
                g1.is_on_ground,
            );
            &&& g2.is_on_ground == g1.is_on_ground
            &&& g2.is_on_platform == g1.is_on_platform
            &&& g2.fall_through == g1.fall_through
            &&& g2.probe == g1.probe
        }),
{
}

} // verus!
