//! Damage / kill regions: rectangular regions that eliminate players
//! intersecting them.

use vstd::prelude::*;

use crate::body::KinematicBody;
use crate::geom::{Rect, SpecRect, SpecVec2, Transform, Vec2, MAX_DIM};

verus! {

/// A rectangular damage region. Players intersecting it are eliminated
/// immediately, so there is no damage amount.
#[derive(Clone, Copy, Debug, PartialEq, Eq, Structural)]
pub struct DamageRegion {
    /// The size of the damage region, in thousandths of a unit.
    pub size: Vec2,
}

/// The collision rectangle of a damage region centred at `pos`.
pub open spec fn spec_damage_rect(region: DamageRegion, pos: SpecVec2) -> SpecRect {
    let min = SpecVec2 { x: pos.x - region.size.x / 2, y: pos.y - region.size.y / 2 };
    SpecRect {
        min,
        max: SpecVec2 { x: min.x + region.size.x, y: min.y + region.size.y },
    }
}

impl DamageRegion {
    /// Get the collision rectangle of this damage region, given its
    /// position.
    pub fn collider_rect(&self, position: Vec2) -> (r: Rect)
        requires
            0 <= self.size.x <= MAX_DIM,
            0 <= self.size.y <= MAX_DIM,
            position@.in_coord_range(),
        ensures
            r@ == spec_damage_rect(*self, position@),
    {
        Rect::new(position.x, position.y, self.size.x, self.size.y)
    }
}

/// Marks the entity that set up a damage region. A player never harms
/// itself with a region it owns.
#[derive(Clone, Copy, Debug, PartialEq, Eq, Structural)]
pub struct DamageRegionOwner(pub usize);

/// One elimination decided by a damage-region pass: which player, and the
/// position of the region that caused it.
#[derive(Clone, Copy, Debug, PartialEq, Eq, Structural)]
pub struct PlayerKill {
    pub player: usize,
    pub at: Vec2,
}

/// Whether the damage region of entity `j` eliminates the player entity `i`:
/// `i` is a live player with a transform and a body, not invincible, `j`
/// carries a region and a transform, `i` does not own the region, and the
/// player's bounding box overlaps the region's rectangle.
pub open spec fn spec_kill_pair(
    player_indexes: Seq<Option<usize>>,
    transforms: Seq<Option<Transform>>,
    damage_regions: Seq<Option<DamageRegion>>,
    damage_region_owners: Seq<Option<usize>>,
    bodies: Seq<Option<KinematicBody>>,
    invincibles: Seq<bool>,
    i: int,
    j: int,
) -> bool {
    &&& player_indexes[i].is_some()
    &&& transforms[i].is_some()
    &&& bodies[i].is_some()
    &&& !invincibles[i]
    &&& damage_regions[j].is_some()
    &&& transforms[j].is_some()
    &&& damage_region_owners[j] != Some(i as usize)
    &&& bodies[i].unwrap().shape.spec_aabb(transforms[i].unwrap().position@).overlaps(
        spec_damage_rect(damage_regions[j].unwrap(), transforms[j].unwrap().position@),
    )
}

/// The eliminations that regions `[0, j)` inflict on the player entity `i`,
/// in region order.
pub open spec fn spec_kill_row(
    player_indexes: Seq<Option<usize>>,
    transforms: Seq<Option<Transform>>,
    damage_regions: Seq<Option<DamageRegion>>,
    damage_region_owners: Seq<Option<usize>>,
    bodies: Seq<Option<KinematicBody>>,
    invincibles: Seq<bool>,
    i: int,
    j: int,
) -> Seq<PlayerKill>
    decreases j,
{
    if j <= 0 {
        Seq::empty()
    } else {
        let prefix = spec_kill_row(
            player_indexes,
            transforms,
            damage_regions,
            damage_region_owners,
            bodies,
            invincibles,
            i,
            j - 1,
        );
        if spec_kill_pair(
            player_indexes,
            transforms,
            damage_regions,
            damage_region_owners,
            bodies,
            invincibles,
            i,
            j - 1,
        ) {
            prefix.push(
                PlayerKill { player: i as usize, at: transforms[j - 1].unwrap().position },
            )
        } else {
            prefix
        }
    }
}

/// The eliminations that all regions inflict on the player entities
/// `[0, i)`, in player order.
pub open spec fn spec_kills_upto(
    player_indexes: Seq<Option<usize>>,
    transforms: Seq<Option<Transform>>,
    damage_regions: Seq<Option<DamageRegion>>,
    damage_region_owners: Seq<Option<usize>>,
    bodies: Seq<Option<KinematicBody>>,
    invincibles: Seq<bool>,
    i: int,
) -> Seq<PlayerKill>
    decreases i,
{
    if i <= 0 {
        Seq::empty()
    } else {
        spec_kills_upto(
            player_indexes,
            transforms,
            damage_regions,
            damage_region_owners,
            bodies,
            invincibles,
            i - 1,
        ) + spec_kill_row(
            player_indexes,
            transforms,
            damage_regions,
            damage_region_owners,
            bodies,
            invincibles,
            i - 1,
            damage_regions.len() as int,
        )
    }
}

/// An entity that is not an eligible player is eliminated by nothing.
proof fn lemma_kill_row_empty(
    player_indexes: Seq<Option<usize>>,
    transforms: Seq<Option<Transform>>,
    damage_regions: Seq<Option<DamageRegion>>,
    damage_region_owners: Seq<Option<usize>>,
    bodies: Seq<Option<KinematicBody>>,
    invincibles: Seq<bool>,
    i: int,
    j: int,
)
    requires
        !(player_indexes[i].is_some() && transforms[i].is_some() && bodies[i].is_some()
            && !invincibles[i]),
    ensures
        spec_kill_row(
            player_indexes,
            transforms,
            damage_regions,
            damage_region_owners,
            bodies,
            invincibles,
            i,
            j,
        ) == Seq::<PlayerKill>::empty(),
    decreases j,
{
    if j > 0 {
        lemma_kill_row_empty(
            player_indexes,
            transforms,
            damage_regions,
            damage_region_owners,
            bodies,
            invincibles,
            i,
            j - 1,
        );
    }
}

/// Decide which players the damage regions eliminate this tick: for every
/// live, vulnerable player whose bounding box overlaps a region that it does
/// not own, one elimination is produced, in player order and then region
/// order.
pub fn kill_players_in_damage_region(
    player_indexes: &Vec<Option<usize>>,
    transforms: &Vec<Option<Transform>>,
    damage_regions: &Vec<Option<DamageRegion>>,
    damage_region_owners: &Vec<Option<usize>>,
    bodies: &Vec<Option<KinematicBody>>,
    invincibles: &Vec<bool>,
) -> (kills: Vec<PlayerKill>)
    requires
        transforms@.len() == player_indexes@.len(),
        damage_regions@.len() == player_indexes@.len(),
        damage_region_owners@.len() == player_indexes@.len(),
        bodies@.len() == player_indexes@.len(),
        invincibles@.len() == player_indexes@.len(),
        forall|i: int|
            0 <= i < player_indexes@.len() && (#[trigger] bodies@[i]).is_some()
                && player_indexes@[i].is_some() && transforms@[i].is_some() ==> (
            bodies@[i].unwrap().shape.wf() && transforms@[i].unwrap().position@.in_coord_range()),
        forall|j: int|
            0 <= j < player_indexes@.len() && (#[trigger] damage_regions@[j]).is_some()
                && transforms@[j].is_some() ==> (0 <= damage_regions@[j].unwrap().size.x <= MAX_DIM
                && 0 <= damage_regions@[j].unwrap().size.y <= MAX_DIM
                && transforms@[j].unwrap().position@.in_coord_range()),
    ensures
        kills@ == spec_kills_upto(
            player_indexes@,
            transforms@,
            damage_regions@,
            damage_region_owners@,
            bodies@,
            invincibles@,
            player_indexes@.len() as int,
        ),
{
    let n: usize = player_indexes.len();
    let mut kills: Vec<PlayerKill> = Vec::new();
    let mut i: usize = 0;
    while i < n
        invariant
            n == player_indexes@.len(),
            transforms@.len() == n,
            damage_regions@.len() == n,
            damage_region_owners@.len() == n,
            bodies@.len() == n,
            invincibles@.len() == n,
            i <= n,
            forall|t: int|
                0 <= t < n && (#[trigger] bodies@[t]).is_some() && player_indexes@[t].is_some()
                    && transforms@[t].is_some() ==> (bodies@[t].unwrap().shape.wf()
                    && transforms@[t].unwrap().position@.in_coord_range()),
            forall|t: int|
                0 <= t < n && (#[trigger] damage_regions@[t]).is_some() && transforms@[t].is_some()
                    ==> (0 <= damage_regions@[t].unwrap().size.x <= MAX_DIM && 0
                    <= damage_regions@[t].unwrap().size.y <= MAX_DIM
                    && transforms@[t].unwrap().position@.in_coord_range()),
            kills@ == spec_kills_upto(
                player_indexes@,
                transforms@,
                damage_regions@,
                damage_region_owners@,
                bodies@,
                invincibles@,
                i as int,
            ),
        decreases n - i,
    {
        let eligible: bool = player_indexes[i].is_some() && transforms[i].is_some()
            && bodies[i].is_some() && !invincibles[i];
        if eligible {
            let body: KinematicBody = bodies[i].unwrap();
            let transform: Transform = transforms[i].unwrap();
            let player_rect: Rect = body.bounding_box(transform);
            let mut j: usize = 0;
            while j < n
                invariant
                    n == player_indexes@.len(),
                    transforms@.len() == n,
                    damage_regions@.len() == n,
                    damage_region_owners@.len() == n,
                    bodies@.len() == n,
                    invincibles@.len() == n,
                    i < n,
                    j <= n,
                    player_indexes@[i as int].is_some(),
                    transforms@[i as int].is_some(),
                    bodies@[i as int].is_some(),
                    !invincibles@[i as int],
                    body == bodies@[i as int].unwrap(),
                    transform == transforms@[i as int].unwrap(),
                    player_rect@ == body.shape.spec_aabb(transform.position@),
                    forall|t: int|
                        0 <= t < n && (#[trigger] damage_regions@[t]).is_some()
                            && transforms@[t].is_some() ==> (0 <= damage_regions@[
                            t
                        ].unwrap().size.x <= MAX_DIM && 0 <= damage_regions@[t].unwrap().size.y
                            <= MAX_DIM && transforms@[t].unwrap().position@.in_coord_range()),
                    kills@ == spec_kills_upto(
                        player_indexes@,
                        transforms@,
                        damage_regions@,
                        damage_region_owners@,
                        bodies@,
                        invincibles@,
                        i as int,
                    ) + spec_kill_row(
                        player_indexes@,
                        transforms@,
                        damage_regions@,
                        damage_region_owners@,
                        bodies@,
                        invincibles@,
                        i as int,
                        j as int,
                    ),
                decreases n - j,
            {
                let applies: bool = damage_regions[j].is_some() && transforms[j].is_some();
                if applies {
                    // A player is never harmed by a region it owns.
                    let owned: bool = match damage_region_owners[j] {
                        Some(owner) => owner == i,
                        None => false,
                    };
                    if !owned {
                        let region: DamageRegion = damage_regions[j].unwrap();
                        let region_transform: Transform = transforms[j].unwrap();
                        let damage_rect: Rect = region.collider_rect(region_transform.position);
                        if player_rect.overlaps(&damage_rect) {
                            kills.push(
                                PlayerKill { player: i, at: region_transform.position },
                            );
                            proof {
                                assert(kills@ =~= spec_kills_upto(
                                    player_indexes@,
                                    transforms@,
                                    damage_regions@,
                                    damage_region_owners@,
                                    bodies@,
                                    invincibles@,
                                    i as int,
                                ) + spec_kill_row(
                                    player_indexes@,
                                    transforms@,
                                    damage_regions@,
                                    damage_region_owners@,
                                    bodies@,
                                    invincibles@,
                                    i as int,
                                    j as int + 1,
                                ));
                            }
                        }
                    }
                }
                j = j + 1;
            }
        } else {
            proof {
                lemma_kill_row_empty(
                    player_indexes@,
                    transforms@,
                    damage_regions@,
                    damage_region_owners@,
                    bodies@,
                    invincibles@,
                    i as int,
                    n as int,
                );
                assert(kills@ =~= spec_kills_upto(
                    player_indexes@,
                    transforms@,
                    damage_regions@,
                    damage_region_owners@,
                    bodies@,
                    invincibles@,
                    i as int,
                ) + spec_kill_row(
                    player_indexes@,
                    transforms@,
                    damage_regions@,
                    damage_region_owners@,
                    bodies@,
                    invincibles@,
                    i as int,
                    n as int,
                ));
            }
        }
        i = i + 1;
        proof {
            assert(kills@ =~= spec_kills_upto(
                player_indexes@,
                transforms@,
                damage_regions@,
                damage_region_owners@,
                bodies@,
                invincibles@,
                i as int,
            ));
        }
    }
    kills
}

} // verus!
