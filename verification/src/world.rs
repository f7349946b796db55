//! The entities of a game and what one frame does to them.

use vstd::prelude::*;
use crate::collision::{
    check_player_collectible,
    check_player_enemy,
    discs_overlap,
    hits_enemy,
    lemma_picked_exact,
    picked,
    pickup_indices,
    reaches_star,
    CollisionEvent,
    PickupEvent,
};
use crate::confine::{bounces_point, clamp_point, clamp_wide, reflect_point, reflect_wide};
use crate::entity::{
    Enemy,
    ENEMIES_NUMBER,
    ENEMY_RADIUS,
    PLAYER_RADIUS,
    STARS_NUMBER,
    STAR_RADIUS,
};
use crate::events::{GameOver, Sound};
use crate::geometry::{Bounds, Vec2};
use crate::movement::{displacement, move_enemy, move_player, MoveKeys, ENEMY_SPEED, PLAYER_SPEED};
use crate::score::Score;
use crate::spawner::{
    enemies_added,
    random_bounce_sound,
    spawn_enemies,
    spawn_stars,
    stars_added,
    tick_and_maybe_spawn,
    NewEntitySpec,
};
use crate::timer::{SpawnKind, SpawnTimer, ENEMY_SPAWN_PERIOD_US, STAR_SPAWN_PERIOD_US};

verus! {

/// Where the player stands after a frame: moved as the keys ask, then held
/// inside the window.
pub open spec fn player_moved(position: Vec2, keys: MoveKeys, delta_us: u32, bounds: Bounds)
    -> Vec2 {
    let delta = displacement(keys.spec_heading(), PLAYER_SPEED, delta_us);
    clamp_point(position.x + delta.x, position.y + delta.y, PLAYER_RADIUS, bounds)
}

/// An enemy after a frame: moved along its heading, turned round on each
/// axis on which the move brought it to an edge, then held inside the window.
pub open spec fn enemy_moved(enemy: Enemy, delta_us: u32, bounds: Bounds) -> Enemy {
    let delta = displacement(enemy.direction, ENEMY_SPEED, delta_us);
    let x = enemy.position.x + delta.x;
    let y = enemy.position.y + delta.y;
    Enemy {
        position: clamp_point(x, y, ENEMY_RADIUS, bounds),
        direction: reflect_point(x, y, ENEMY_RADIUS, bounds, enemy.direction),
    }
}

/// Whether the frame's move brings an enemy to an edge.
pub open spec fn enemy_bounced(enemy: Enemy, delta_us: u32, bounds: Bounds) -> bool {
    let delta = displacement(enemy.direction, ENEMY_SPEED, delta_us);
    bounces_point(
        enemy.position.x + delta.x,
        enemy.position.y + delta.y,
        ENEMY_RADIUS,
        bounds,
    )
}

/// All enemies after a frame, in their order.
pub open spec fn enemies_moved(enemies: Seq<Enemy>, delta_us: u32, bounds: Bounds) -> Seq<Enemy> {
    Seq::new(enemies.len(), |i: int| enemy_moved(enemies[i], delta_us, bounds))
}

/// How many of the enemies the frame's move brings to an edge.
pub open spec fn bounce_count(enemies: Seq<Enemy>, delta_us: u32, bounds: Bounds) -> nat
    decreases enemies.len(),
{
    if enemies.len() == 0 {
        0
    } else {
        bounce_count(enemies.drop_last(), delta_us, bounds) + if enemy_bounced(
            enemies.last(),
            delta_us,
            bounds,
        ) {
            1nat
        } else {
            0nat
        }
    }
}

/// Every enemy's heading is no longer than one.
pub open spec fn enemies_wf(enemies: Seq<Enemy>) -> bool {
    forall|i: int| 0 <= i < enemies.len() ==> (#[trigger] enemies[i]).wf()
}

/// `after` is `before` with `count` more sounds at its end, all of them
/// bounce sounds.
pub open spec fn bounces_added(before: Seq<Sound>, after: Seq<Sound>, count: int) -> bool {
    &&& after.len() == before.len() + count
    &&& after.take(before.len() as int) == before
    &&& forall|i: int| before.len() <= i < after.len() ==> (#[trigger] after[i]).is_bounce()
}

/// Moves the player as the keys ask and holds it inside the window.
pub fn advance_player(position: Vec2, keys: MoveKeys, delta_us: u32, bounds: Bounds) -> (moved:
    Vec2)
    ensures
        moved == player_moved(position, keys, delta_us, bounds),
{
    let delta = move_player(keys, PLAYER_SPEED, delta_us);
    clamp_wide(
        position.x as i128 + delta.x as i128,
        position.y as i128 + delta.y as i128,
        PLAYER_RADIUS,
        bounds,
    )
}

/// Moves one enemy along its heading, turns it round where the move brought
/// it to an edge, and holds it inside the window. Returns the enemy after the
/// frame and whether it turned.
pub fn advance_enemy(enemy: Enemy, delta_us: u32, bounds: Bounds) -> (outcome: (Enemy, bool))
    requires
        enemy.wf(),
    ensures
        outcome.0 == enemy_moved(enemy, delta_us, bounds),
        outcome.1 == enemy_bounced(enemy, delta_us, bounds),
        outcome.0.wf(),
{
    let delta = move_enemy(enemy.direction, ENEMY_SPEED, delta_us);
    let x: i128 = enemy.position.x as i128 + delta.x as i128;
    let y: i128 = enemy.position.y as i128 + delta.y as i128;
    let (direction, turned) = reflect_wide(x, y, ENEMY_RADIUS, bounds, enemy.direction);
    (Enemy { position: clamp_wide(x, y, ENEMY_RADIUS, bounds), direction }, turned)
}

/// Moves every enemy for one frame, and asks for a bounce sound, one of the
/// two variants drawn, for each enemy that turned round.
pub fn advance_enemies(
    enemies: &mut Vec<Enemy>,
    delta_us: u32,
    bounds: Bounds,
    sounds: &mut Vec<Sound>,
)
    requires
        enemies_wf(old(enemies)@),
    ensures
        final(enemies)@ == enemies_moved(old(enemies)@, delta_us, bounds),
        enemies_wf(final(enemies)@),
        bounces_added(
            old(sounds)@,
            final(sounds)@,
            bounce_count(old(enemies)@, delta_us, bounds) as int,
        ),
{
    let mut i: usize = 0;
    assert(sounds@.take(sounds@.len() as int) =~= sounds@);
    assert(old(enemies)@.take(0) =~= Seq::<Enemy>::empty());
    while i < enemies.len()
        invariant
            i <= enemies.len(),
            enemies.len() == old(enemies).len(),
            forall|j: int| 0 <= j < i ==> enemies[j] == enemy_moved(old(enemies)[j], delta_us, bounds),
            forall|j: int| i <= j < enemies.len() ==> enemies[j] == old(enemies)[j],
            enemies_wf(old(enemies)@),
            enemies_wf(enemies@),
            bounces_added(
                old(sounds)@,
                sounds@,
                bounce_count(old(enemies)@.take(i as int), delta_us, bounds) as int,
            ),
        decreases enemies.len() - i,
    {
        let ghost sounds_before = sounds@;
        let (moved, turned) = advance_enemy(enemies[i], delta_us, bounds);
        enemies.set(i, moved);
        if turned {
            let sound = random_bounce_sound();
            sounds.push(sound);
            assert(sounds@.take(old(sounds)@.len() as int) =~= sounds_before.take(
                old(sounds)@.len() as int,
            ));
        }
        proof {
            let next = old(enemies)@.take(i + 1);
            assert(next.drop_last() =~= old(enemies)@.take(i as int));
            assert(next.last() == old(enemies)[i as int]);
        }
        i = i + 1;
    }
    assert(old(enemies)@.take(i as int) =~= old(enemies)@);
    assert(enemies@ =~= enemies_moved(old(enemies)@, delta_us, bounds));
}

/// Where the enemies are, in their order.
pub open spec fn positions(enemies: Seq<Enemy>) -> Seq<Vec2> {
    Seq::new(enemies.len(), |i: int| enemies[i].position)
}

/// Whether the player, if there is one, overlaps any of the enemies.
pub open spec fn collides(player: Option<Vec2>, enemies: Seq<Enemy>) -> bool {
    player.is_some() && exists|i: int|
        0 <= i < enemies.len() && hits_enemy(player.unwrap(), #[trigger] enemies[i].position)
}

/// Whether `index` is the first enemy that the player overlaps.
pub open spec fn is_first_hit(player: Vec2, enemies: Seq<Enemy>, index: int) -> bool {
    &&& 0 <= index < enemies.len()
    &&& hits_enemy(player, enemies[index].position)
    &&& forall|j: int| 0 <= j < index ==> !hits_enemy(player, #[trigger] enemies[j].position)
}

/// The stars that the player does not reach, in their order.
pub open spec fn remaining(player: Vec2, stars: Seq<Vec2>) -> Seq<Vec2>
    decreases stars.len(),
{
    if stars.len() == 0 {
        Seq::empty()
    } else if reaches_star(player, stars.last()) {
        remaining(player, stars.drop_last())
    } else {
        remaining(player, stars.drop_last()).push(stars.last())
    }
}

/// The indices of the stars picked up by the player, if there is one.
pub open spec fn stars_picked(player: Option<Vec2>, stars: Seq<Vec2>) -> Seq<int> {
    match player {
        Some(position) => picked(position, stars),
        None => Seq::empty(),
    }
}

/// The stars left once the player, if there is one, picked up all in reach.
pub open spec fn stars_left(player: Option<Vec2>, stars: Seq<Vec2>) -> Seq<Vec2> {
    match player {
        Some(position) => remaining(position, stars),
        None => stars,
    }
}

/// `count` pickup sounds.
pub open spec fn pickup_sounds(count: nat) -> Seq<Sound> {
    Seq::new(count, |i: int| Sound::Pickup)
}

/// Every star is either picked up or left, never both.
pub proof fn lemma_picked_or_left(player: Vec2, stars: Seq<Vec2>)
    ensures
        picked(player, stars).len() + remaining(player, stars).len() == stars.len(),
    decreases stars.len(),
{
    if stars.len() > 0 {
        lemma_picked_or_left(player, stars.drop_last());
    }
}

/// Lists where the enemies are.
pub fn enemy_positions(enemies: &Vec<Enemy>) -> (places: Vec<Vec2>)
    ensures
        places@ == positions(enemies@),
{
    let mut places: Vec<Vec2> = Vec::new();
    let mut i: usize = 0;
    while i < enemies.len()
        invariant
            i <= enemies.len(),
            places@ =~= positions(enemies@.take(i as int)),
        decreases enemies.len() - i,
    {
        places.push(enemies[i].position);
        i = i + 1;
    }
    assert(enemies@.take(i as int) =~= enemies@);
    places
}

/// Lets the enemies at the player. If the player overlaps an enemy, the
/// player is destroyed, an explosion sound is asked for, and the first such
/// enemy is reported together with a game-over event that carries the score.
pub fn enemy_hit_player(
    player: &mut Option<Vec2>,
    enemies: &Vec<Enemy>,
    score: &Score,
    sounds: &mut Vec<Sound>,
) -> (outcome: Option<(CollisionEvent, GameOver)>)
    ensures
        outcome.is_some() == collides(*old(player), enemies@),
        *final(player) == if collides(*old(player), enemies@) {
            None
        } else {
            *old(player)
        },
        final(sounds)@ == if collides(*old(player), enemies@) {
            old(sounds)@.push(Sound::Explosion)
        } else {
            old(sounds)@
        },
        outcome.is_some() ==> is_first_hit(
            old(player).unwrap(),
            enemies@,
            outcome.unwrap().0.enemy as int,
        ) && outcome.unwrap().1.score == score.value,
{
    match *player {
        Some(position) => {
            let places = enemy_positions(enemies);
            match check_player_enemy(position, &places) {
                Some(hit) => {
                    assert(places[hit.enemy as int] == enemies[hit.enemy as int].position);
                    assert forall|j: int| 0 <= j < hit.enemy implies !hits_enemy(
                        position,
                        #[trigger] enemies[j].position,
                    ) by {
                        assert(places[j] == enemies[j].position);
                    }
                    *player = None;
                    sounds.push(Sound::Explosion);
                    Some((hit, GameOver { score: score.value }))
                },
                None => {
                    assert forall|j: int| 0 <= j < enemies.len() implies !hits_enemy(
                        position,
                        #[trigger] enemies[j].position,
                    ) by {
                        assert(places[j] == enemies[j].position);
                    }
                    None
                },
            }
        },
        None => None,
    }
}

/// Drops the stars that the player reaches and keeps the others in order.
fn keep_unreached(player: Vec2, stars: &Vec<Vec2>) -> (kept: Vec<Vec2>)
    ensures
        kept@ == remaining(player, stars@),
{
    let mut kept: Vec<Vec2> = Vec::new();
    let mut i: usize = 0;
    assert(stars@.take(0) =~= Seq::<Vec2>::empty());
    while i < stars.len()
        invariant
            i <= stars.len(),
            kept@ == remaining(player, stars@.take(i as int)),
        decreases stars.len() - i,
    {
        proof {
            let next = stars@.take(i + 1);
            assert(next.drop_last() =~= stars@.take(i as int));
            assert(next.last() == stars[i as int]);
        }
        if !discs_overlap(player, PLAYER_RADIUS, stars[i], STAR_RADIUS) {
            kept.push(stars[i]);
        }
        i = i + 1;
    }
    assert(stars@.take(i as int) =~= stars@);
    kept
}

/// Lets the player at the stars. Every star that the player overlaps is
/// destroyed, counts one point, and has a pickup sound asked for. Without a
/// player nothing happens.
pub fn player_hit_star(
    player: Option<Vec2>,
    stars: &mut Vec<Vec2>,
    score: &mut Score,
    sounds: &mut Vec<Sound>,
) -> (events: Vec<PickupEvent>)
    requires
        old(score).value + old(stars).len() <= u32::MAX,
    ensures
        pickup_indices(events@) == stars_picked(player, old(stars)@),
        final(stars)@ == stars_left(player, old(stars)@),
        final(score).value == old(score).value + stars_picked(player, old(stars)@).len(),
        final(sounds)@ == old(sounds)@ + pickup_sounds(stars_picked(player, old(stars)@).len()),
{
    match player {
        Some(position) => {
            let events = check_player_collectible(position, stars);
            let kept = keep_unreached(position, stars);
            proof {
                lemma_picked_exact(position, stars@);
                assert(events@.len() == pickup_indices(events@).len());
            }
            *stars = kept;
            let mut k: usize = 0;
            assert(sounds@ =~= old(sounds)@ + pickup_sounds(0));
            while k < events.len()
                invariant
                    k <= events.len(),
                    old(score).value + events.len() <= u32::MAX,
                    score.value == old(score).value + k,
                    sounds@ == old(sounds)@ + pickup_sounds(k as nat),
                decreases events.len() - k,
            {
                score.increment();
                sounds.push(Sound::Pickup);
                assert(sounds@ =~= old(sounds)@ + pickup_sounds((k + 1) as nat));
                k = k + 1;
            }
            events
        },
        None => {
            let events: Vec<PickupEvent> = Vec::new();
            assert(pickup_indices(events@) =~= Seq::<int>::empty());
            assert(sounds@ =~= old(sounds)@ + pickup_sounds(0));
            events
        },
    }
}

/// `1` if the countdown just expired, else `0`.
pub open spec fn due(timer: SpawnTimer) -> int {
    if timer.finished {
        1
    } else {
        0
    }
}

/// Advances both countdowns by the time that the frame took and adds one
/// star, one enemy, or both, as the countdowns expire: each at a position
/// drawn in the window, the enemy with a heading drawn.
pub fn spawn_over_time(
    stars: &mut Vec<Vec2>,
    enemies: &mut Vec<Enemy>,
    star_timer: &mut SpawnTimer,
    enemy_timer: &mut SpawnTimer,
    delta_us: u32,
    bounds: Bounds,
)
    requires
        old(star_timer).kind == SpawnKind::Collectible,
        old(enemy_timer).kind == SpawnKind::Enemy,
        enemies_wf(old(enemies)@),
    ensures
        *final(star_timer) == old(star_timer).ticked(delta_us),
        *final(enemy_timer) == old(enemy_timer).ticked(delta_us),
        stars_added(old(stars)@, final(stars)@, due(*final(star_timer)), bounds),
        enemies_added(old(enemies)@, final(enemies)@, due(*final(enemy_timer)), bounds),
        enemies_wf(final(enemies)@),
{
    assert(stars@.take(stars@.len() as int) =~= stars@);
    assert(enemies@.take(enemies@.len() as int) =~= enemies@);
    match tick_and_maybe_spawn(star_timer, delta_us, Some(bounds)) {
        Some(NewEntitySpec::Collectible(position)) => {
            stars.push(position);
            assert(stars@.take(old(stars)@.len() as int) =~= old(stars)@);
        },
        Some(NewEntitySpec::Enemy(_)) => {},
        None => {},
    }
    match tick_and_maybe_spawn(enemy_timer, delta_us, Some(bounds)) {
        Some(NewEntitySpec::Enemy(enemy)) => {
            enemies.push(enemy);
            assert(enemies@.take(old(enemies)@.len() as int) =~= old(enemies)@);
        },
        Some(NewEntitySpec::Collectible(_)) => {},
        None => {},
    }
}

/// Everything that lives in the window, the score, and the countdowns.
#[derive(Debug)]
pub struct World {
    /// The player, while there is one.
    pub player: Option<Vec2>,
    /// The enemies, oldest first.
    pub enemies: Vec<Enemy>,
    /// The stars, oldest first.
    pub stars: Vec<Vec2>,
    /// The stars picked up so far.
    pub score: Score,
    /// Paces the stars.
    pub star_timer: SpawnTimer,
    /// Paces the enemies.
    pub enemy_timer: SpawnTimer,
}

/// What happened in one frame.
#[derive(Debug)]
pub struct FrameReport {
    /// The enemy that destroyed the player, if one did.
    pub collision: Option<CollisionEvent>,
    /// The end of the game, if the player was destroyed.
    pub game_over: Option<GameOver>,
    /// The stars picked up, by their index before the frame.
    pub pickups: Vec<PickupEvent>,
    /// The sounds to play: bounces first, then the explosion or the pickups.
    pub sounds: Vec<Sound>,
}

impl FrameReport {
    /// Nothing happened.
    pub open spec fn is_empty(self) -> bool {
        &&& self.collision.is_none()
        &&& self.game_over.is_none()
        &&& self.pickups@.len() == 0
        &&& self.sounds@.len() == 0
    }
}

/// The player after the frame's move, if there is a player.
pub open spec fn player_then(before: World, keys: MoveKeys, delta_us: u32, window: Bounds)
    -> Option<Vec2> {
    match before.player {
        Some(position) => Some(player_moved(position, keys, delta_us, window)),
        None => None,
    }
}

/// The player after the frame's move and the enemies' attack: gone if it
/// overlaps an enemy where both stand after their moves.
pub open spec fn survivor(before: World, keys: MoveKeys, delta_us: u32, window: Bounds) -> Option<
    Vec2,
> {
    if collides(
        player_then(before, keys, delta_us, window),
        enemies_moved(before.enemies@, delta_us, window),
    ) {
        None
    } else {
        player_then(before, keys, delta_us, window)
    }
}

/// What a step reports: the first enemy that the moved player overlaps and
/// the game-over event with the score before the step, or else the stars
/// picked up; and the sounds, bounces first, then the explosion or one
/// pickup sound for each star.
pub open spec fn reported(
    before: World,
    report: FrameReport,
    keys: MoveKeys,
    delta_us: u32,
    window: Bounds,
) -> bool {
    let moved = player_then(before, keys, delta_us, window);
    let enemies_then = enemies_moved(before.enemies@, delta_us, window);
    let hit = collides(moved, enemies_then);
    let taken = stars_picked(survivor(before, keys, delta_us, window), before.stars@);
    let bounced = bounce_count(before.enemies@, delta_us, window) as int;
    &&& report.collision.is_some() == hit
    &&& hit ==> is_first_hit(moved.unwrap(), enemies_then, report.collision.unwrap().enemy as int)
    &&& report.game_over == if hit {
        Some(GameOver { score: before.score.value })
    } else {
        None
    }
    &&& pickup_indices(report.pickups@) == taken
    &&& report.sounds@.len() >= bounced
    &&& forall|i: int| 0 <= i < bounced ==> (#[trigger] report.sounds@[i]).is_bounce()
    &&& report.sounds@.skip(bounced) == if hit {
        Seq::empty().push(Sound::Explosion)
    } else {
        pickup_sounds(taken.len())
    }
}

/// What a step does to the books: one point for each star picked up, and
/// both countdowns advanced.
pub open spec fn tallied(
    before: World,
    after: World,
    keys: MoveKeys,
    delta_us: u32,
    window: Bounds,
) -> bool {
    let taken = stars_picked(survivor(before, keys, delta_us, window), before.stars@);
    &&& after.score.value == before.score.value + taken.len()
    &&& after.star_timer == before.star_timer.ticked(delta_us)
    &&& after.enemy_timer == before.enemy_timer.ticked(delta_us)
}

/// Who is in the window after a step: the player where it moved, unless an
/// enemy got it; every enemy where it moved, and a newcomer if the enemies'
/// countdown expired; the stars not picked up, and a newcomer if the stars'
/// countdown expired.
pub open spec fn peopled(
    before: World,
    after: World,
    keys: MoveKeys,
    delta_us: u32,
    window: Bounds,
) -> bool {
    let alive = survivor(before, keys, delta_us, window);
    &&& after.player == alive
    &&& stars_added(
        stars_left(alive, before.stars@),
        after.stars@,
        due(before.star_timer.ticked(delta_us)),
        window,
    )
    &&& enemies_added(
        enemies_moved(before.enemies@, delta_us, window),
        after.enemies@,
        due(before.enemy_timer.ticked(delta_us)),
        window,
    )
}

/// What one frame in a window makes of a world, in the frame's fixed order:
/// the player and the enemies move and are held inside the window; the
/// enemies get at the player; the player, if it survived, gets at the stars;
/// the countdowns advance and bring newcomers.
pub open spec fn stepped(
    before: World,
    after: World,
    report: FrameReport,
    keys: MoveKeys,
    delta_us: u32,
    window: Bounds,
) -> bool {
    &&& peopled(before, after, keys, delta_us, window)
    &&& tallied(before, after, keys, delta_us, window)
    &&& reported(before, report, keys, delta_us, window)
}

/// The score never falls. A step raises it by exactly one for each star
/// that the surviving player overlaps: the stars reported are those stars,
/// each once, and the score grows by their number.
pub proof fn lemma_score_counts_pickups(
    before: World,
    after: World,
    report: FrameReport,
    keys: MoveKeys,
    delta_us: u32,
    window: Bounds,
)
    requires
        stepped(before, after, report, keys, delta_us, window),
    ensures
        after.score.value >= before.score.value,
        after.score.value == before.score.value + report.pickups@.len(),
        forall|k: int|
            0 <= k < report.pickups@.len() ==> {
                &&& (#[trigger] report.pickups@[k]).star < before.stars@.len()
                &&& survivor(before, keys, delta_us, window).is_some()
                &&& reaches_star(
                    survivor(before, keys, delta_us, window).unwrap(),
                    before.stars@[report.pickups@[k].star as int],
                )
            },
        forall|k: int, l: int|
            0 <= k < l < report.pickups@.len() ==> report.pickups@[k].star
                < report.pickups@[l].star,
        forall|i: int|
            0 <= i < before.stars@.len() && survivor(before, keys, delta_us, window).is_some()
                && reaches_star(
                survivor(before, keys, delta_us, window).unwrap(),
                #[trigger] before.stars@[i],
            ) ==> exists|k: int|
                0 <= k < report.pickups@.len() && report.pickups@[k].star == i,
{
    let alive = survivor(before, keys, delta_us, window);
    let indices = pickup_indices(report.pickups@);
    assert(indices.len() == report.pickups@.len());
    assert forall|k: int| 0 <= k < report.pickups@.len() implies indices[k]
        == (#[trigger] report.pickups@[k]).star by {}
    match alive {
        Some(position) => {
            lemma_picked_exact(position, before.stars@);
            assert forall|i: int|
                0 <= i < before.stars@.len() && reaches_star(
                    position,
                    #[trigger] before.stars@[i],
                ) implies exists|k: int|
                0 <= k < report.pickups@.len() && report.pickups@[k].star == i by {
                assert(indices.contains(i));
                let k = choose|k: int| 0 <= k < indices.len() && indices[k] == i;
                assert(report.pickups@[k].star == i);
            }
        },
        None => {},
    }
}

/// A step destroys no enemy: each enemy that was there is there afterwards,
/// in its place in the order, moved; newcomers stand behind them.
pub proof fn lemma_step_keeps_enemies(
    before: World,
    after: World,
    report: FrameReport,
    keys: MoveKeys,
    delta_us: u32,
    window: Bounds,
)
    requires
        stepped(before, after, report, keys, delta_us, window),
    ensures
        before.enemies@.len() <= after.enemies@.len() <= before.enemies@.len() + 1,
        forall|i: int|
            0 <= i < before.enemies@.len() ==> after.enemies@[i] == enemy_moved(
                #[trigger] before.enemies@[i],
                delta_us,
                window,
            ),
{
    let moved = enemies_moved(before.enemies@, delta_us, window);
    assert forall|i: int| 0 <= i < before.enemies@.len() implies after.enemies@[i] == enemy_moved(
        #[trigger] before.enemies@[i],
        delta_us,
        window,
    ) by {
        assert(after.enemies@.take(moved.len() as int)[i] == moved[i]);
    }
}

/// In a window with room for a disc of their radius, a step leaves the
/// player, if it survives, and every enemy that was there before with their
/// whole disc inside the window.
pub proof fn lemma_step_confines(
    before: World,
    after: World,
    report: FrameReport,
    keys: MoveKeys,
    delta_us: u32,
    window: Bounds,
)
    requires
        stepped(before, after, report, keys, delta_us, window),
        2 * PLAYER_RADIUS <= window.width,
        2 * PLAYER_RADIUS <= window.height,
        2 * ENEMY_RADIUS <= window.width,
        2 * ENEMY_RADIUS <= window.height,
    ensures
        after.player.is_some() ==> {
            &&& PLAYER_RADIUS <= after.player.unwrap().x <= window.width - PLAYER_RADIUS
            &&& PLAYER_RADIUS <= after.player.unwrap().y <= window.height - PLAYER_RADIUS
        },
        forall|i: int|
            0 <= i < before.enemies@.len() ==> {
                &&& ENEMY_RADIUS <= (#[trigger] after.enemies@[i]).position.x <= window.width
                    - ENEMY_RADIUS
                &&& ENEMY_RADIUS <= after.enemies@[i].position.y <= window.height - ENEMY_RADIUS
            },
{
    lemma_step_keeps_enemies(before, after, report, keys, delta_us, window);
    assert forall|i: int| 0 <= i < before.enemies@.len() implies {
        &&& ENEMY_RADIUS <= (#[trigger] after.enemies@[i]).position.x <= window.width
            - ENEMY_RADIUS
        &&& ENEMY_RADIUS <= after.enemies@[i].position.y <= window.height - ENEMY_RADIUS
    } by {
        assert(after.enemies@[i] == enemy_moved(before.enemies@[i], delta_us, window));
    }
}

impl World {
    /// The enemies' headings are no longer than one, and each countdown
    /// paces its own kind.
    pub open spec fn wf(self) -> bool {
        &&& enemies_wf(self.enemies@)
        &&& self.star_timer.kind == SpawnKind::Collectible
        &&& self.enemy_timer.kind == SpawnKind::Enemy
    }

    /// The score can take a point for every star there is.
    pub open spec fn has_room(self) -> bool {
        self.score.value + self.stars@.len() <= u32::MAX
    }

    /// Tests whether the world is fit for a step: well-formed, and with room
    /// in the score.
    pub fn is_ready(&self) -> (ok: bool)
        ensures
            ok == (self.wf() && self.has_room()),
    {
        if self.star_timer.kind != SpawnKind::Collectible || self.enemy_timer.kind
            != SpawnKind::Enemy {
            return false;
        }
        if self.stars.len() > (u32::MAX - self.score.value) as usize {
            return false;
        }
        let mut i: usize = 0;
        while i < self.enemies.len()
            invariant
                i <= self.enemies.len(),
                forall|j: int| 0 <= j < i ==> (#[trigger] self.enemies@[j]).wf(),
            decreases self.enemies.len() - i,
        {
            if !self.enemies[i].direction.is_wf() {
                return false;
            }
            i = i + 1;
        }
        true
    }

    /// An empty world: nobody in it, no points, both countdowns fresh.
    pub fn new() -> (world: World)
        ensures
            world.wf(),
            world.player.is_none(),
            world.enemies@.len() == 0,
            world.stars@.len() == 0,
            world.score.value == 0,
            world.star_timer == (SpawnTimer {
                kind: SpawnKind::Collectible,
                period_us: STAR_SPAWN_PERIOD_US,
                elapsed_us: 0,
                finished: false,
            }),
            world.enemy_timer == (SpawnTimer {
                kind: SpawnKind::Enemy,
                period_us: ENEMY_SPAWN_PERIOD_US,
                elapsed_us: 0,
                finished: false,
            }),
    {
        World {
            player: None,
            enemies: Vec::new(),
            stars: Vec::new(),
            score: Score::new(),
            star_timer: SpawnTimer::stars(),
            enemy_timer: SpawnTimer::enemies(),
        }
    }

    /// Sets up a game: the player in the middle of the window,
    /// `ENEMIES_NUMBER` enemies and `STARS_NUMBER` stars at positions drawn in
    /// the window, each enemy with a heading drawn. Whoever was there before
    /// is gone; the score and the countdowns stay. Without a window nothing
    /// changes.
    pub fn spawn_initial_entities(&mut self, bounds: Option<Bounds>)
        requires
            old(self).wf(),
        ensures
            final(self).wf(),
            final(self).score == old(self).score,
            final(self).star_timer == old(self).star_timer,
            final(self).enemy_timer == old(self).enemy_timer,
            match bounds {
                Some(window) => {
                    &&& final(self).player == Some(window.spec_center())
                    &&& enemies_added(
                        Seq::empty(),
                        final(self).enemies@,
                        ENEMIES_NUMBER as int,
                        window,
                    )
                    &&& stars_added(
                        Seq::empty(),
                        final(self).stars@,
                        STARS_NUMBER as int,
                        window,
                    )
                },
                None => *final(self) == *old(self),
            },
    {
        match bounds {
            Some(window) => {
                self.player = Some(window.center());
                self.enemies.clear();
                spawn_enemies(&mut self.enemies, bounds);
                self.stars.clear();
                spawn_stars(&mut self.stars, bounds);
            },
            None => {},
        }
    }

    /// Advances the world by one frame: `keys` are the movement keys held,
    /// `delta_us` the time since the last frame, `bounds` the window. Without
    /// a window the frame is skipped and nothing changes.
    pub fn step(&mut self, keys: MoveKeys, delta_us: u32, bounds: Option<Bounds>) -> (report:
        FrameReport)
        requires
            old(self).wf(),
            old(self).has_room(),
        ensures
            final(self).wf(),
            match bounds {
                Some(window) => stepped(*old(self), *final(self), report, keys, delta_us, window),
                None => *final(self) == *old(self) && report.is_empty(),
            },
    {
        let mut sounds: Vec<Sound> = Vec::new();
        match bounds {
            Some(window) => {
                self.player =
                match self.player {
                    Some(position) => Some(advance_player(position, keys, delta_us, window)),
                    None => None,
                };
                advance_enemies(&mut self.enemies, delta_us, window, &mut sounds);
                let ghost bounce_sounds = sounds@;
                let outcome = enemy_hit_player(
                    &mut self.player,
                    &self.enemies,
                    &self.score,
                    &mut sounds,
                );
                let ghost attack_sounds = sounds@;
                let pickups = player_hit_star(
                    self.player,
                    &mut self.stars,
                    &mut self.score,
                    &mut sounds,
                );
                spawn_over_time(
                    &mut self.stars,
                    &mut self.enemies,
                    &mut self.star_timer,
                    &mut self.enemy_timer,
                    delta_us,
                    window,
                );
                let (collision, game_over) = match outcome {
                    Some((hit, over)) => (Some(hit), Some(over)),
                    None => (None, None),
                };
                proof {
                    let bounced = bounce_count(old(self).enemies@, delta_us, window) as int;
                    let hit = collides(
                        player_then(*old(self), keys, delta_us, window),
                        enemies_moved(old(self).enemies@, delta_us, window),
                    );
                    assert(bounce_sounds.len() == bounced);
                    assert(attack_sounds.take(bounced) =~= bounce_sounds);
                    assert(sounds@.take(bounced) =~= bounce_sounds);
                    if hit {
                        assert(pickups@.len() == pickup_indices(pickups@).len());
                        assert(sounds@.skip(bounced) =~= Seq::empty().push(Sound::Explosion));
                    } else {
                        assert(sounds@.skip(bounced) =~= pickup_sounds(
                            stars_picked(self.player, old(self).stars@).len(),
                        ));
                    }
                    assert forall|i: int| 0 <= i < bounced implies (#[trigger] sounds@[i]).is_bounce() by {
                        assert(sounds@[i] == bounce_sounds[i]);
                    }
                }
                FrameReport { collision, game_over, pickups, sounds }
            },
            None => FrameReport { collision: None, game_over: None, pickups: Vec::new(), sounds },
        }
    }
}

} // verus!
