use jumpy_core::body::KinematicBody;
use jumpy_core::geom::{Transform, Vec2};
use jumpy_core::physics::{
    apply_rotation, hydrate_physics_bodies, step_body, update_kinematic_bodies, BodyAnomaly,
    PhysicsError, PhysicsParams,
};
use jumpy_core::shape::ColliderShape;
use jumpy_core::tile::{TileCollisionKind, TileMap};
use jumpy_core::world::CollisionWorld;

const TF: i64 = 1000;

fn params() -> PhysicsParams {
    PhysicsParams {
        friction_lerp: 960,
        stop_threshold: 100,
        terminal_velocity: 10_000,
        gravity: 120,
    }
}

fn unit_box() -> ColliderShape {
    ColliderShape::Rectangle { width: 1000, height: 1000 }
}

fn empty_world() -> CollisionWorld {
    CollisionWorld::new(TileMap::new(10, 10, 1000), 1)
}

fn ground_world() -> CollisionWorld {
    let mut map = TileMap::new(10, 10, 1000);
    for i in 0..10 {
        map.set(i, 0, TileCollisionKind::Solid);
    }
    CollisionWorld::new(map, 1)
}

fn platform_world() -> CollisionWorld {
    let mut map = TileMap::new(10, 10, 1000);
    for i in 0..10 {
        map.set(i, 0, TileCollisionKind::Solid);
        map.set(i, 4, TileCollisionKind::JumpThrough);
    }
    CollisionWorld::new(map, 1)
}

fn tick(
    world: &mut CollisionWorld,
    bodies: &mut Vec<Option<KinematicBody>>,
    transforms: &mut Vec<Option<Transform>>,
) -> Vec<BodyAnomaly> {
    hydrate_physics_bodies(bodies, world);
    update_kinematic_bodies(world, bodies, transforms, &params(), TF)
}

#[test]
fn massless_bodies_ignore_gravity() {
    let mut world = empty_world();
    let body = KinematicBody {
        shape: unit_box(),
        gravity: 5000,
        has_mass: false,
        ..KinematicBody::default()
    };
    let mut bodies = vec![Some(body)];
    let mut transforms = vec![Some(Transform::from_position(Vec2 { x: 5500, y: 5500 }))];
    for _ in 0..3 {
        let anomalies = tick(&mut world, &mut bodies, &mut transforms);
        assert!(anomalies.is_empty());
        assert_eq!(transforms[0].unwrap().position, Vec2 { x: 5500, y: 5500 });
        assert_eq!(bodies[0].unwrap().velocity, Vec2 { x: 0, y: 0 });
    }
}

#[test]
fn gravity_accelerates_then_moves() {
    let mut world = empty_world();
    let body = KinematicBody {
        shape: unit_box(),
        gravity: 2000,
        has_mass: true,
        ..KinematicBody::default()
    };
    let mut bodies = vec![Some(body)];
    let mut transforms = vec![Some(Transform::from_position(Vec2 { x: 5500, y: 8500 }))];
    // First tick: the body was at rest, so it does not move yet, but leaves
    // with a downward velocity.
    tick(&mut world, &mut bodies, &mut transforms);
    assert_eq!(transforms[0].unwrap().position, Vec2 { x: 5500, y: 8500 });
    assert_eq!(bodies[0].unwrap().velocity.y, -2000);
    assert!(!bodies[0].unwrap().is_on_ground);
    // Second tick: the position drops by exactly the velocity scaled by the
    // time factor, and gravity keeps integrating.
    tick(&mut world, &mut bodies, &mut transforms);
    assert_eq!(transforms[0].unwrap().position, Vec2 { x: 5500, y: 6500 });
    assert_eq!(bodies[0].unwrap().velocity.y, -4000);
}

#[test]
fn falling_speed_is_clamped_at_terminal_velocity() {
    let mut world = empty_world();
    let body = KinematicBody {
        shape: unit_box(),
        gravity: 8000,
        has_mass: true,
        ..KinematicBody::default()
    };
    let mut bodies = vec![Some(body)];
    let mut transforms = vec![Some(Transform::from_position(Vec2 { x: 5500, y: 400_000 }))];
    tick(&mut world, &mut bodies, &mut transforms);
    assert_eq!(bodies[0].unwrap().velocity.y, -8000);
    tick(&mut world, &mut bodies, &mut transforms);
    assert_eq!(bodies[0].unwrap().velocity.y, -10_000);
    tick(&mut world, &mut bodies, &mut transforms);
    assert_eq!(bodies[0].unwrap().velocity.y, -10_000);
}

#[test]
fn resting_body_does_not_drift() {
    let mut world = ground_world();
    let body = KinematicBody {
        shape: unit_box(),
        gravity: 2000,
        has_mass: true,
        has_friction: true,
        ..KinematicBody::default()
    };
    let mut bodies = vec![Some(body)];
    let mut transforms = vec![Some(Transform::from_position(Vec2 { x: 5500, y: 1500 }))];
    for _ in 0..5 {
        tick(&mut world, &mut bodies, &mut transforms);
        assert_eq!(transforms[0].unwrap().position, Vec2 { x: 5500, y: 1500 });
        assert_eq!(bodies[0].unwrap().velocity, Vec2 { x: 0, y: 0 });
        assert!(bodies[0].unwrap().is_on_ground);
        assert!(!bodies[0].unwrap().is_on_platform);
    }
}

#[test]
fn bounce_reflects_half_the_speed() {
    let mut map = TileMap::new(10, 10, 1000);
    for j in 0..10 {
        map.set(8, j, TileCollisionKind::Solid);
    }
    let mut world = CollisionWorld::new(map, 1);
    let body = KinematicBody {
        shape: unit_box(),
        velocity: Vec2 { x: 4000, y: 0 },
        bounciness: 500,
        ..KinematicBody::default()
    };
    let mut bodies = vec![Some(body)];
    let mut transforms = vec![Some(Transform::from_position(Vec2 { x: 5500, y: 5500 }))];
    tick(&mut world, &mut bodies, &mut transforms);
    assert_eq!(transforms[0].unwrap().position, Vec2 { x: 7500, y: 5500 });
    assert_eq!(bodies[0].unwrap().velocity.x, -2000);
}

#[test]
fn fall_through_reports_airborne_until_cleared() {
    let mut world = platform_world();
    let body = KinematicBody {
        shape: unit_box(),
        has_mass: false,
        ..KinematicBody::default()
    };
    let mut bodies = vec![Some(body)];
    // Resting exactly on top of the platform row.
    let mut transforms = vec![Some(Transform::from_position(Vec2 { x: 5500, y: 5500 }))];
    tick(&mut world, &mut bodies, &mut transforms);
    assert!(bodies[0].unwrap().is_on_ground);
    assert!(bodies[0].unwrap().is_on_platform);
    // The host asks the body to drop through.
    bodies[0] = Some(KinematicBody { fall_through: true, ..bodies[0].unwrap() });
    tick(&mut world, &mut bodies, &mut transforms);
    assert!(!bodies[0].unwrap().is_on_ground);
    assert!(!bodies[0].unwrap().is_on_platform);
    // Clearing the flag restores the platform contact.
    bodies[0] = Some(KinematicBody { fall_through: false, ..bodies[0].unwrap() });
    tick(&mut world, &mut bodies, &mut transforms);
    assert!(bodies[0].unwrap().is_on_ground);
    assert!(bodies[0].unwrap().is_on_platform);
}

#[test]
fn dropping_through_a_platform_lands_below() {
    let mut world = platform_world();
    let body = KinematicBody {
        shape: unit_box(),
        gravity: 3000,
        has_mass: true,
        fall_through: true,
        ..KinematicBody::default()
    };
    let mut bodies = vec![Some(body)];
    let mut transforms = vec![Some(Transform::from_position(Vec2 { x: 4500, y: 5500 }))];
    // Tick 1: the resting body only picks up downward speed.
    tick(&mut world, &mut bodies, &mut transforms);
    assert_eq!(bodies[0].unwrap().velocity.y, -3000);
    // Tick 2: it sinks into the platform instead of landing on it.
    tick(&mut world, &mut bodies, &mut transforms);
    assert_eq!(transforms[0].unwrap().position.y, 2500);
    assert!(world.get_collider(0).seen_wood);
    // Tick 3 onward: it keeps falling and stops on the solid ground below.
    tick(&mut world, &mut bodies, &mut transforms);
    tick(&mut world, &mut bodies, &mut transforms);
    assert_eq!(transforms[0].unwrap().position.y, 1500);
    assert!(bodies[0].unwrap().is_on_ground);
    // Standing on solid ground, not on the platform it fell through.
    assert!(!bodies[0].unwrap().is_on_platform);
    // The passage latch survives until a horizontal move clears it.
    assert!(world.get_collider(0).seen_wood);
    bodies[0] = Some(
        KinematicBody {
            fall_through: false,
            velocity: Vec2 { x: 1000, y: 0 },
            ..bodies[0].unwrap()
        },
    );
    tick(&mut world, &mut bodies, &mut transforms);
    assert_eq!(transforms[0].unwrap().position.x, 5500);
    assert!(!world.get_collider(0).seen_wood);
}

#[test]
fn motionless_body_inside_platform_starts_falling_through() {
    let mut world = platform_world();
    let body = KinematicBody {
        shape: unit_box(),
        has_mass: false,
        ..KinematicBody::default()
    };
    let mut bodies = vec![Some(body)];
    // Wedged inside the platform row.
    let mut transforms = vec![Some(Transform::from_position(Vec2 { x: 4500, y: 4500 }))];
    tick(&mut world, &mut bodies, &mut transforms);
    assert!(bodies[0].unwrap().fall_through);
    assert!(!bodies[0].unwrap().is_on_ground);
}

#[test]
fn spawning_inside_platform_resets_passage_memory() {
    let mut world = platform_world();
    let body = KinematicBody {
        shape: unit_box(),
        gravity: 2000,
        has_mass: true,
        fall_through: true,
        is_spawning: true,
        ..KinematicBody::default()
    };
    let mut bodies = vec![Some(body)];
    // Spawned wedged inside the platform row.
    let mut transforms = vec![Some(Transform::from_position(Vec2 { x: 4500, y: 4500 }))];
    tick(&mut world, &mut bodies, &mut transforms);
    assert!(!bodies[0].unwrap().is_spawning);
    assert!(!bodies[0].unwrap().is_on_ground);
}

#[test]
fn collider_mirrors_shape_every_tick() {
    let mut world = empty_world();
    let first = unit_box();
    let second = ColliderShape::Circle { radius: 700 };
    let body = KinematicBody { shape: first, ..KinematicBody::default() };
    let mut bodies = vec![Some(body)];
    let mut transforms = vec![Some(Transform::from_position(Vec2 { x: 5500, y: 5500 }))];
    tick(&mut world, &mut bodies, &mut transforms);
    assert_eq!(world.get_collider(0).shape, first);
    bodies[0] = Some(KinematicBody { shape: second, ..bodies[0].unwrap() });
    tick(&mut world, &mut bodies, &mut transforms);
    assert_eq!(world.get_collider(0).shape, second);
}

#[test]
fn ground_classification_is_stable_without_motion() {
    let mut world = ground_world();
    let body = KinematicBody {
        shape: unit_box(),
        has_mass: true,
        has_friction: true,
        ..KinematicBody::default()
    };
    let mut bodies = vec![Some(body)];
    let mut transforms = vec![Some(Transform::from_position(Vec2 { x: 5500, y: 1500 }))];
    tick(&mut world, &mut bodies, &mut transforms);
    let first = bodies[0].unwrap();
    tick(&mut world, &mut bodies, &mut transforms);
    let second = bodies[0].unwrap();
    assert_eq!(first.is_on_ground, second.is_on_ground);
    assert_eq!(first.is_on_platform, second.is_on_platform);
    assert_eq!(first.fall_through, second.fall_through);
}

#[test]
fn friction_override_is_consumed_once() {
    let mut world = ground_world();
    let body = KinematicBody {
        shape: unit_box(),
        velocity: Vec2 { x: 2000, y: 0 },
        has_friction: true,
        frame_friction_override: Some(500),
        ..KinematicBody::default()
    };
    let mut bodies = vec![Some(body)];
    let mut transforms = vec![Some(Transform::from_position(Vec2 { x: 1500, y: 1500 }))];
    tick(&mut world, &mut bodies, &mut transforms);
    // The override halved the speed, then vanished.
    assert_eq!(bodies[0].unwrap().velocity.x, 1000);
    assert_eq!(bodies[0].unwrap().frame_friction_override, None);
    tick(&mut world, &mut bodies, &mut transforms);
    // The ambient friction applies from now on.
    assert_eq!(bodies[0].unwrap().velocity.x, 960);
}

#[test]
fn slow_horizontal_speed_snaps_to_zero() {
    let mut world = ground_world();
    let body = KinematicBody {
        shape: unit_box(),
        velocity: Vec2 { x: 104, y: 0 },
        has_friction: true,
        ..KinematicBody::default()
    };
    let mut bodies = vec![Some(body)];
    let mut transforms = vec![Some(Transform::from_position(Vec2 { x: 2500, y: 1500 }))];
    tick(&mut world, &mut bodies, &mut transforms);
    // 104 * 0.960 = 99, which is under the stop threshold of 100.
    assert_eq!(bodies[0].unwrap().velocity.x, 0);
}

#[test]
fn deactivated_bodies_are_skipped() {
    let mut world = ground_world();
    let body = KinematicBody {
        shape: unit_box(),
        velocity: Vec2 { x: 4000, y: 0 },
        is_deactivated: true,
        ..KinematicBody::default()
    };
    let mut bodies = vec![Some(body)];
    let mut transforms = vec![Some(Transform::from_position(Vec2 { x: 2500, y: 1500 }))];
    let anomalies = tick(&mut world, &mut bodies, &mut transforms);
    assert!(anomalies.is_empty());
    assert_eq!(transforms[0].unwrap().position, Vec2 { x: 2500, y: 1500 });
    assert!(world.get_collider(0).disabled);
}

#[test]
fn missing_mirror_is_reported() {
    let mut world = ground_world();
    let body = KinematicBody { shape: unit_box(), ..KinematicBody::default() };
    let mut bodies = vec![Some(body)];
    let mut transforms = vec![Some(Transform::from_position(Vec2 { x: 2500, y: 1500 }))];
    // No hydration pass ran, so the body has no mirror.
    let anomalies = update_kinematic_bodies(&mut world, &mut bodies, &mut transforms, &params(), TF);
    assert_eq!(anomalies.len(), 1);
    assert_eq!(anomalies[0].entity, 0);
    assert_eq!(anomalies[0].error, PhysicsError::MissingMirror);
    // The body was left untouched.
    assert_eq!(transforms[0].unwrap().position, Vec2 { x: 2500, y: 1500 });
}

#[test]
fn malformed_shape_is_reported() {
    let mut world = ground_world();
    let body = KinematicBody {
        shape: ColliderShape::Rectangle { width: 0, height: 1000 },
        ..KinematicBody::default()
    };
    let mut bodies = vec![Some(body)];
    let mut transforms = vec![Some(Transform::from_position(Vec2 { x: 2500, y: 1500 }))];
    let anomalies = tick(&mut world, &mut bodies, &mut transforms);
    assert_eq!(anomalies.len(), 1);
    assert_eq!(anomalies[0].error, PhysicsError::InvalidShapeQuery);
    assert_eq!(transforms[0].unwrap().position, Vec2 { x: 2500, y: 1500 });
}

#[test]
fn unresolvable_overlap_is_reported_and_survived() {
    let mut map = TileMap::new(8, 8, 1000);
    for i in 0..8 {
        for j in 0..8 {
            map.set(i, j, TileCollisionKind::Solid);
        }
    }
    let mut world = CollisionWorld::new(map, 1);
    let body = KinematicBody {
        shape: unit_box(),
        has_mass: true,
        ..KinematicBody::default()
    };
    let mut bodies = vec![Some(body)];
    let mut transforms = vec![Some(Transform::from_position(Vec2 { x: 3500, y: 3500 }))];
    let anomalies = tick(&mut world, &mut bodies, &mut transforms);
    assert_eq!(anomalies.len(), 1);
    assert_eq!(anomalies[0].error, PhysicsError::UnresolvableOverlap);
    // The body is left overlapping rather than moved arbitrarily.
    assert_eq!(transforms[0].unwrap().position, Vec2 { x: 3500, y: 3500 });
}

#[test]
fn depenetration_shoves_body_upward_out_of_floor() {
    let mut world = ground_world();
    let body = KinematicBody {
        shape: unit_box(),
        has_mass: true,
        ..KinematicBody::default()
    };
    let mut bodies = vec![Some(body)];
    // Sunk halfway into the ground row.
    let mut transforms = vec![Some(Transform::from_position(Vec2 { x: 5500, y: 1000 }))];
    let anomalies = tick(&mut world, &mut bodies, &mut transforms);
    assert!(anomalies.is_empty());
    // One upward nudge of a whole unit resolves the overlap.
    assert_eq!(transforms[0].unwrap().position, Vec2 { x: 5500, y: 2000 });
}

#[test]
fn step_body_returns_missing_mirror() {
    let mut world = ground_world();
    let body = KinematicBody { shape: unit_box(), ..KinematicBody::default() };
    let mut bodies = vec![Some(body)];
    let mut transforms = vec![Some(Transform::from_position(Vec2 { x: 2500, y: 1500 }))];
    let r = step_body(&mut world, &mut bodies, &mut transforms, &params(), TF, 0);
    assert_eq!(r, Err(PhysicsError::MissingMirror));
}

#[test]
fn airborne_bodies_spin_at_a_constant_rate() {
    let mut t = Transform::from_position(Vec2 { x: 0, y: 0 });
    apply_rotation(&mut t, Vec2 { x: 0, y: 0 }, 1000, false, unit_box());
    assert_eq!(t.rotation, 60_000);
    apply_rotation(&mut t, Vec2 { x: 0, y: 0 }, 1000, false, unit_box());
    assert_eq!(t.rotation, 120_000);
}

#[test]
fn grounded_circles_roll_with_horizontal_speed() {
    let mut t = Transform::from_position(Vec2 { x: 0, y: 0 });
    let circle = ColliderShape::Circle { radius: 500 };
    apply_rotation(&mut t, Vec2 { x: -2000, y: 0 }, 500, true, circle);
    assert_eq!(t.rotation, 1000);
    // Grounded boxes do not roll.
    let mut t2 = Transform::from_position(Vec2 { x: 0, y: 0 });
    apply_rotation(&mut t2, Vec2 { x: -2000, y: 0 }, 500, true, unit_box());
    assert_eq!(t2.rotation, 0);
}
