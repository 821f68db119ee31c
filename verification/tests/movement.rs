use jumpy_core::body::KinematicBody;
use jumpy_core::geom::{Transform, Vec2};
use jumpy_core::physics::hydrate_physics_bodies;
use jumpy_core::shape::ColliderShape;
use jumpy_core::tile::{TileCollisionKind, TileMap};
use jumpy_core::world::CollisionWorld;

fn unit_box() -> ColliderShape {
    ColliderShape::Rectangle { width: 1000, height: 1000 }
}

fn body_at(x: i64, y: i64) -> (Vec<Option<KinematicBody>>, Vec<Option<Transform>>) {
    let body = KinematicBody { shape: unit_box(), ..KinematicBody::default() };
    let bodies = vec![Some(body)];
    let transforms = vec![Some(Transform::from_position(Vec2 { x, y }))];
    (bodies, transforms)
}

fn ground_world() -> CollisionWorld {
    let mut map = TileMap::new(10, 10, 1000);
    for i in 0..10 {
        map.set(i, 0, TileCollisionKind::Solid);
    }
    CollisionWorld::new(map, 1)
}

fn platform_world() -> CollisionWorld {
    let mut map = TileMap::new(10, 10, 1000);
    for i in 0..10 {
        map.set(i, 2, TileCollisionKind::JumpThrough);
    }
    CollisionWorld::new(map, 1)
}

#[test]
fn hydration_creates_one_mirror() {
    let (bodies, _) = body_at(5500, 5500);
    let mut world = ground_world();
    assert!(world.colliders[0].is_none());
    hydrate_physics_bodies(&bodies, &mut world);
    let collider = world.get_collider(0);
    assert_eq!(collider.shape, unit_box());
    assert!(!collider.disabled);
    assert!(!collider.seen_wood);
    assert!(!collider.descent);
    assert!(world.actors[0].is_some());
    // A second hydration pass leaves the mirror as it is.
    hydrate_physics_bodies(&bodies, &mut world);
    assert_eq!(world.get_collider(0), collider);
}

#[test]
fn vertical_move_stops_on_solid_ground() {
    let (bodies, mut transforms) = body_at(5500, 5500);
    let mut world = ground_world();
    hydrate_physics_bodies(&bodies, &mut world);
    let collided = world.move_vertical(&mut transforms, 0, -10_000);
    assert!(collided);
    // The body rests with its lower edge exactly on the tile row's top.
    assert_eq!(transforms[0].unwrap().position, Vec2 { x: 5500, y: 1500 });
}

#[test]
fn vertical_move_in_open_space_covers_the_distance() {
    let (bodies, mut transforms) = body_at(5500, 5500);
    let mut world = ground_world();
    hydrate_physics_bodies(&bodies, &mut world);
    let collided = world.move_vertical(&mut transforms, 0, -3_700);
    assert!(!collided);
    assert_eq!(transforms[0].unwrap().position, Vec2 { x: 5500, y: 1800 });
}

#[test]
fn platform_blocks_descent_without_latch() {
    let (bodies, mut transforms) = body_at(5500, 5500);
    let mut world = platform_world();
    hydrate_physics_bodies(&bodies, &mut world);
    let collided = world.move_vertical(&mut transforms, 0, -10_000);
    assert!(collided);
    assert_eq!(transforms[0].unwrap().position, Vec2 { x: 5500, y: 3500 });
    assert!(!world.get_collider(0).seen_wood);
}

#[test]
fn descent_latch_passes_through_platform() {
    let (bodies, mut transforms) = body_at(5500, 5500);
    let mut world = platform_world();
    hydrate_physics_bodies(&bodies, &mut world);
    world.descent(0);
    let collided = world.move_vertical(&mut transforms, 0, -10_000);
    assert!(!collided);
    assert_eq!(transforms[0].unwrap().position, Vec2 { x: 5500, y: -4500 });
    // Passing through the platform latched the passage memory.
    assert!(world.get_collider(0).seen_wood);
}

#[test]
fn upward_move_passes_through_platform() {
    let (bodies, mut transforms) = body_at(5500, 500);
    let mut world = platform_world();
    hydrate_physics_bodies(&bodies, &mut world);
    let collided = world.move_vertical(&mut transforms, 0, 5_000);
    assert!(!collided);
    assert_eq!(transforms[0].unwrap().position, Vec2 { x: 5500, y: 5500 });
    assert!(world.get_collider(0).seen_wood);
}

#[test]
fn horizontal_move_clears_latches() {
    let (bodies, mut transforms) = body_at(5500, 5500);
    let mut world = platform_world();
    hydrate_physics_bodies(&bodies, &mut world);
    world.descent(0);
    world.move_vertical(&mut transforms, 0, -10_000);
    assert!(world.get_collider(0).seen_wood);
    assert!(world.get_collider(0).descent);
    // A zero-distance call moves nothing and keeps the latches.
    let collided = world.move_horizontal(&mut transforms, 0, 0);
    assert!(!collided);
    assert!(world.get_collider(0).seen_wood);
    assert!(world.get_collider(0).descent);
    // An actual displacement clears them.
    world.move_horizontal(&mut transforms, 0, 1000);
    assert_eq!(transforms[0].unwrap().position.x, 6500);
    assert!(!world.get_collider(0).seen_wood);
    assert!(!world.get_collider(0).descent);
}

#[test]
fn horizontal_move_stops_at_wall() {
    let mut map = TileMap::new(10, 10, 1000);
    for j in 0..10 {
        map.set(8, j, TileCollisionKind::Solid);
    }
    let mut world = CollisionWorld::new(map, 1);
    let (bodies, mut transforms) = body_at(5500, 5500);
    hydrate_physics_bodies(&bodies, &mut world);
    let collided = world.move_horizontal(&mut transforms, 0, 4_000);
    assert!(collided);
    assert_eq!(transforms[0].unwrap().position, Vec2 { x: 7500, y: 5500 });
}

#[test]
fn teleport_clears_passage_memory() {
    let (bodies, mut transforms) = body_at(5500, 5500);
    let mut world = platform_world();
    hydrate_physics_bodies(&bodies, &mut world);
    world.descent(0);
    world.move_vertical(&mut transforms, 0, -10_000);
    assert!(world.get_collider(0).seen_wood);
    world.handle_teleport(0);
    assert!(!world.get_collider(0).seen_wood);
    assert!(!world.get_collider(0).descent);
}

#[test]
fn update_syncs_collider_positions() {
    let (bodies, transforms) = body_at(1234, 5678);
    let mut world = ground_world();
    hydrate_physics_bodies(&bodies, &mut world);
    assert_eq!(world.get_collider(0).pos, Vec2 { x: 0, y: 0 });
    world.update(&transforms);
    assert_eq!(world.get_collider(0).pos, Vec2 { x: 1234, y: 5678 });
}
