use jumpy_core::body::KinematicBody;
use jumpy_core::damage::{kill_players_in_damage_region, DamageRegion, DamageRegionOwner};
use jumpy_core::geom::{Transform, Vec2};
use jumpy_core::shape::ColliderShape;

struct Arena {
    player_indexes: Vec<Option<usize>>,
    transforms: Vec<Option<Transform>>,
    damage_regions: Vec<Option<DamageRegion>>,
    damage_region_owners: Vec<Option<usize>>,
    bodies: Vec<Option<KinematicBody>>,
    invincibles: Vec<bool>,
}

impl Arena {
    fn new(n: usize) -> Arena {
        Arena {
            player_indexes: vec![None; n],
            transforms: vec![None; n],
            damage_regions: vec![None; n],
            damage_region_owners: vec![None; n],
            bodies: vec![None; n],
            invincibles: vec![false; n],
        }
    }

    fn player(&mut self, e: usize, idx: usize, x: i64, y: i64) {
        self.player_indexes[e] = Some(idx);
        self.transforms[e] = Some(Transform::from_position(Vec2 { x, y }));
        self.bodies[e] = Some(KinematicBody {
            shape: ColliderShape::Rectangle { width: 1000, height: 1000 },
            ..KinematicBody::default()
        });
    }

    fn region(&mut self, e: usize, w: i64, h: i64, x: i64, y: i64) {
        self.damage_regions[e] = Some(DamageRegion { size: Vec2 { x: w, y: h } });
        self.transforms[e] = Some(Transform::from_position(Vec2 { x, y }));
    }

    fn run(&self) -> Vec<(usize, Vec2)> {
        kill_players_in_damage_region(
            &self.player_indexes,
            &self.transforms,
            &self.damage_regions,
            &self.damage_region_owners,
            &self.bodies,
            &self.invincibles,
        )
        .into_iter()
        .map(|k| (k.player, k.at))
        .collect()
    }
}

#[test]
fn overlapping_region_kills_player() {
    let mut a = Arena::new(3);
    a.player(0, 0, 0, 0);
    a.region(1, 2000, 2000, 500, 0);
    let kills = a.run();
    assert_eq!(kills, vec![(0, Vec2 { x: 500, y: 0 })]);
}

#[test]
fn distant_region_kills_nobody() {
    let mut a = Arena::new(3);
    a.player(0, 0, 0, 0);
    a.region(1, 2000, 2000, 10_000, 0);
    assert!(a.run().is_empty());
}

#[test]
fn region_owner_is_spared() {
    let mut a = Arena::new(3);
    a.player(0, 0, 0, 0);
    a.region(1, 2000, 2000, 500, 0);
    a.damage_region_owners[1] = Some(0);
    assert!(a.run().is_empty());
    // A region owned by somebody else still harms this player.
    a.damage_region_owners[1] = Some(2);
    assert_eq!(a.run().len(), 1);
}

#[test]
fn invincible_players_are_spared() {
    let mut a = Arena::new(3);
    a.player(0, 0, 0, 0);
    a.region(1, 2000, 2000, 500, 0);
    a.invincibles[0] = true;
    assert!(a.run().is_empty());
}

#[test]
fn kills_come_in_player_then_region_order() {
    let mut a = Arena::new(5);
    a.player(1, 0, 0, 0);
    a.player(4, 1, 100, 0);
    a.region(2, 2000, 2000, 500, 0);
    a.region(3, 2000, 2000, -500, 0);
    let kills = a.run();
    assert_eq!(
        kills,
        vec![
            (1, Vec2 { x: 500, y: 0 }),
            (1, Vec2 { x: -500, y: 0 }),
            (4, Vec2 { x: 500, y: 0 }),
            (4, Vec2 { x: -500, y: 0 }),
        ]
    );
}

#[test]
fn collider_rect_is_centred_on_the_region() {
    let region = DamageRegion { size: Vec2 { x: 3000, y: 1000 } };
    let rect = region.collider_rect(Vec2 { x: 1000, y: 2000 });
    assert_eq!(rect.min, Vec2 { x: -500, y: 1500 });
    assert_eq!(rect.max, Vec2 { x: 2500, y: 2500 });
}

#[test]
fn damage_region_owner_holds_the_entity() {
    let owner = DamageRegionOwner(7);
    assert_eq!(owner.0, 7);
}
