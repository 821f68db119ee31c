use jumpy_core::geom::{Transform, Vec2};
use jumpy_core::shape::ColliderShape;
use jumpy_core::tile::{TileCollisionKind, TileFilter, TileMap};
use jumpy_core::world::CollisionWorld;

fn small_map() -> TileMap {
    let mut map = TileMap::new(10, 10, 1000);
    map.set(2, 2, TileCollisionKind::Solid);
    map.set(3, 2, TileCollisionKind::JumpThrough);
    map
}

#[test]
fn solid_at_uses_half_open_cells() {
    let map = small_map();
    assert!(map.solid_at(Vec2 { x: 2500, y: 2500 }));
    // The lower and left edges of a cell belong to it.
    assert!(map.solid_at(Vec2 { x: 2000, y: 2000 }));
    // The point at the far corner belongs to the next cell.
    assert!(!map.solid_at(Vec2 { x: 3000, y: 2500 }));
    // Jump-through never counts as solid.
    assert!(!map.solid_at(Vec2 { x: 3500, y: 2500 }));
    assert!(!map.solid_at(Vec2 { x: 500, y: 500 }));
    assert!(!map.solid_at(Vec2 { x: -500, y: 500 }));
}

#[test]
fn cells_outside_the_grid_are_empty() {
    let map = small_map();
    assert_eq!(map.get(-1, 0), TileCollisionKind::Empty);
    assert_eq!(map.get(10, 0), TileCollisionKind::Empty);
    assert_eq!(map.get(2, 2), TileCollisionKind::Solid);
    assert_eq!(map.get(3, 2), TileCollisionKind::JumpThrough);
}

#[test]
fn solid_wins_over_jump_through() {
    let map = small_map();
    let world = CollisionWorld::new(map, 0);
    let shape = ColliderShape::Rectangle { width: 3000, height: 1000 };
    // Centred between the solid and the jump-through cell: overlaps both.
    let t = Transform::from_position(Vec2 { x: 3000, y: 2500 });
    assert_eq!(world.tile_collision(t, shape), TileCollisionKind::Solid);
    assert_eq!(
        world.tile_collision_filtered(t, shape, TileFilter::ExcludeJumpThrough),
        TileCollisionKind::Solid
    );
    assert_eq!(
        world.tile_collision_filtered(t, shape, TileFilter::OnlyJumpThrough),
        TileCollisionKind::JumpThrough
    );
}

#[test]
fn overlap_is_strict() {
    let map = small_map();
    let world = CollisionWorld::new(map, 0);
    let shape = ColliderShape::Rectangle { width: 1000, height: 1000 };
    // A box standing exactly on top of the solid tile does not overlap it.
    let resting = Transform::from_position(Vec2 { x: 2500, y: 3500 });
    assert_eq!(world.tile_collision(resting, shape), TileCollisionKind::Empty);
    // One thousandth of a unit lower, it does.
    let sunk = Transform::from_position(Vec2 { x: 2500, y: 3499 });
    assert_eq!(world.tile_collision(sunk, shape), TileCollisionKind::Solid);
}

#[test]
fn circle_shapes_use_their_bounding_box() {
    let map = small_map();
    let world = CollisionWorld::new(map, 0);
    let shape = ColliderShape::Circle { radius: 500 };
    let over = Transform::from_position(Vec2 { x: 2500, y: 2500 });
    assert_eq!(world.tile_collision(over, shape), TileCollisionKind::Solid);
    let clear = Transform::from_position(Vec2 { x: 2500, y: 3500 });
    assert_eq!(world.tile_collision(clear, shape), TileCollisionKind::Empty);
}
