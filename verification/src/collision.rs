//! Overlap tests between the player and the other entities.

use vstd::prelude::*;
use crate::entity::{ENEMY_RADIUS, PLAYER_RADIUS, STAR_RADIUS};
use crate::geometry::Vec2;

verus! {

/// The squared distance between two points.
pub open spec fn squared_distance(a: Vec2, b: Vec2) -> int {
    (a.x - b.x) * (a.x - b.x) + (a.y - b.y) * (a.y - b.y)
}

/// Whether two discs overlap: their centres are strictly closer than the sum
/// of their radii. Discs that merely touch do not overlap.
pub open spec fn overlaps(a: Vec2, radius_a: u32, b: Vec2, radius_b: u32) -> bool {
    squared_distance(a, b) < (radius_a + radius_b) * (radius_a + radius_b)
}

/// Whether the player at `player` overlaps an enemy at `enemy`.
pub open spec fn hits_enemy(player: Vec2, enemy: Vec2) -> bool {
    overlaps(player, PLAYER_RADIUS, enemy, ENEMY_RADIUS)
}

/// Whether the player at `player` overlaps a star at `star`.
pub open spec fn reaches_star(player: Vec2, star: Vec2) -> bool {
    overlaps(player, PLAYER_RADIUS, star, STAR_RADIUS)
}

/// The player ran into the enemy at this index.
#[derive(Clone, Copy, Debug, PartialEq, Eq, Structural)]
pub struct CollisionEvent {
    pub enemy: usize,
}

/// The player picked up the star at this index.
#[derive(Clone, Copy, Debug, PartialEq, Eq, Structural)]
pub struct PickupEvent {
    pub star: usize,
}

/// The indices of the stars that the player reaches, in rising order.
pub open spec fn picked(player: Vec2, stars: Seq<Vec2>) -> Seq<int>
    decreases stars.len(),
{
    if stars.len() == 0 {
        Seq::empty()
    } else if reaches_star(player, stars.last()) {
        picked(player, stars.drop_last()).push(stars.len() - 1)
    } else {
        picked(player, stars.drop_last())
    }
}

/// The star indices that a list of pickup events carries, in order.
pub open spec fn pickup_indices(events: Seq<PickupEvent>) -> Seq<int> {
    Seq::new(events.len(), |k: int| events[k].star as int)
}

/// The distance between two coordinates.
fn gap(a: i64, b: i64) -> (d: u128)
    ensures
        d == a - b || d == b - a,
        d >= 0,
        d <= 0xffff_ffff_ffff_ffff,
{
    if a >= b {
        (a as i128 - b as i128) as u128
    } else {
        (b as i128 - a as i128) as u128
    }
}

/// Decides whether two discs overlap.
pub fn discs_overlap(a: Vec2, radius_a: u32, b: Vec2, radius_b: u32) -> (hit: bool)
    ensures
        hit == overlaps(a, radius_a, b, radius_b),
{
    let dx: u128 = gap(a.x, b.x);
    let dy: u128 = gap(a.y, b.y);
    let reach: u128 = radius_a as u128 + radius_b as u128;
    assert(dx * dx == (a.x - b.x) * (a.x - b.x) && dy * dy == (a.y - b.y) * (a.y - b.y))
        by (nonlinear_arith)
        requires
            dx == a.x - b.x || dx == b.x - a.x,
            dy == a.y - b.y || dy == b.y - a.y,
    ;
    assert(reach * reach <= 0x2_0000_0000 * 0x2_0000_0000) by (nonlinear_arith)
        requires
            reach <= 0x2_0000_0000,
    ;
    if dx >= reach || dy >= reach {
        assert(dx * dx + dy * dy >= reach * reach) by (nonlinear_arith)
            requires
                dx >= reach || dy >= reach,
                0 <= reach,
                0 <= dx,
                0 <= dy,
        ;
        false
    } else {
        assert(dx * dx <= 0x2_0000_0000 * 0x2_0000_0000 && dy * dy <= 0x2_0000_0000
            * 0x2_0000_0000) by (nonlinear_arith)
            requires
                dx <= 0x2_0000_0000,
                dy <= 0x2_0000_0000,
        ;
        dx * dx + dy * dy < reach * reach
    }
}

/// Looks for an enemy that the player runs into. The enemies are tried in
/// the order given, and the first that overlaps the player is reported, not
/// the nearest.
pub fn check_player_enemy(player: Vec2, enemy_positions: &Vec<Vec2>) -> (event: Option<
    CollisionEvent,
>)
    ensures
        match event {
            Some(hit) => {
                &&& hit.enemy < enemy_positions.len()
                &&& hits_enemy(player, enemy_positions[hit.enemy as int])
                &&& forall|j: int| 0 <= j < hit.enemy ==> !hits_enemy(player, enemy_positions[j])
            },
            None => forall|j: int|
                0 <= j < enemy_positions.len() ==> !hits_enemy(player, enemy_positions[j]),
        },
{
    let mut i: usize = 0;
    while i < enemy_positions.len()
        invariant
            i <= enemy_positions.len(),
            forall|j: int| 0 <= j < i ==> !hits_enemy(player, enemy_positions[j]),
        decreases enemy_positions.len() - i,
    {
        if discs_overlap(player, PLAYER_RADIUS, enemy_positions[i], ENEMY_RADIUS) {
            return Some(CollisionEvent { enemy: i });
        }
        i = i + 1;
    }
    None
}

/// Finds every star that the player reaches. Each star is tried in turn, and
/// all that overlap the player are reported, in the order given.
pub fn check_player_collectible(player: Vec2, collectible_positions: &Vec<Vec2>) -> (events: Vec<
    PickupEvent,
>)
    ensures
        pickup_indices(events@) == picked(player, collectible_positions@),
{
    let mut events: Vec<PickupEvent> = Vec::new();
    let mut i: usize = 0;
    assert(collectible_positions@.take(0) =~= Seq::empty());
    while i < collectible_positions.len()
        invariant
            i <= collectible_positions.len(),
            pickup_indices(events@) =~= picked(player, collectible_positions@.take(i as int)),
        decreases collectible_positions.len() - i,
    {
        let hit = discs_overlap(player, PLAYER_RADIUS, collectible_positions[i], STAR_RADIUS);
        proof {
            let next = collectible_positions@.take(i + 1);
            assert(next.drop_last() =~= collectible_positions@.take(i as int));
            assert(next.last() == collectible_positions[i as int]);
        }
        if hit {
            events.push(PickupEvent { star: i });
        }
        i = i + 1;
    }
    assert(collectible_positions@.take(i as int) =~= collectible_positions@);
    events
}

/// The overlap test does not care which disc is named first.
pub proof fn lemma_overlap_symmetric(a: Vec2, radius_a: u32, b: Vec2, radius_b: u32)
    ensures
        squared_distance(a, b) == squared_distance(b, a),
        overlaps(a, radius_a, b, radius_b) == overlaps(b, radius_b, a, radius_a),
{
    assert((a.x - b.x) * (a.x - b.x) == (b.x - a.x) * (b.x - a.x)) by (nonlinear_arith);
    assert((a.y - b.y) * (a.y - b.y) == (b.y - a.y) * (b.y - a.y)) by (nonlinear_arith);
    assert((radius_a + radius_b) * (radius_a + radius_b) == (radius_b + radius_a) * (radius_b
        + radius_a));
}

/// Discs whose centres are exactly the sum of their radii apart do not
/// overlap, nor do discs farther apart; any closer and they do.
pub proof fn lemma_overlap_is_strict(a: Vec2, radius_a: u32, b: Vec2, radius_b: u32)
    ensures
        squared_distance(a, b) == (radius_a + radius_b) * (radius_a + radius_b) ==> !overlaps(
            a,
            radius_a,
            b,
            radius_b,
        ),
        overlaps(a, radius_a, b, radius_b) <==> squared_distance(a, b) < (radius_a + radius_b) * (
        radius_a + radius_b),
{
}

/// Every index reported by `picked` belongs to a star that the player
/// reaches, and every such star is reported: the indices rise strictly.
pub proof fn lemma_picked_exact(player: Vec2, stars: Seq<Vec2>)
    ensures
        picked(player, stars).len() <= stars.len(),
        forall|k: int|
            0 <= k < picked(player, stars).len() ==> 0 <= #[trigger] picked(player, stars)[k]
                < stars.len() && reaches_star(player, stars[picked(player, stars)[k]]),
        forall|k: int, l: int|
            0 <= k < l < picked(player, stars).len() ==> picked(player, stars)[k] < picked(
                player,
                stars,
            )[l],
        forall|i: int|
            0 <= i < stars.len() && reaches_star(player, stars[i]) ==> picked(
                player,
                stars,
            ).contains(i),
    decreases stars.len(),
{
    if stars.len() > 0 {
        let rest = stars.drop_last();
        lemma_picked_exact(player, rest);
        let before = picked(player, rest);
        let all = picked(player, stars);
        assert forall|i: int| 0 <= i < stars.len() && reaches_star(player, stars[i]) implies all.contains(
            i,
        ) by {
            if i < stars.len() - 1 {
                assert(rest[i] == stars[i]);
                assert(before.contains(i));
                let k = choose|k: int| 0 <= k < before.len() && before[k] == i;
                assert(all[k] == i);
            } else {
                assert(all[all.len() - 1] == i);
            }
        }
        assert forall|k: int| 0 <= k < all.len() implies 0 <= #[trigger] all[k] < stars.len()
            && reaches_star(player, stars[all[k]]) by {
            if k < before.len() {
                assert(all[k] == before[k]);
                assert(rest[before[k]] == stars[before[k]]);
            }
        }
        assert forall|k: int, l: int| 0 <= k < l < all.len() implies all[k] < all[l] by {
            if l < before.len() {
                assert(all[k] == before[k] && all[l] == before[l]);
            } else {
                assert(all[k] == before[k]);
            }
        }
    }
}

} // verus!
