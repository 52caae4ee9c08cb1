//! Collisions of lasers with craft, and what follows from them: damage,
//! destruction, score and explosions.
use vstd::prelude::*;
use crate::commands::Audio;
use crate::commands::AudioCue;
use crate::commands::Commands;
use crate::commands::Entity;
use crate::components::Attributes;
use crate::components::Bundle;
use crate::components::Vec2;
use crate::explosion::explosion_request;
use crate::explosion::spec_explosion_request;
use crate::fixed::saturate;
use crate::fixed::saturate_i64;
use crate::query::single_player;
use crate::query::spec_single_player;
use crate::EnemyCount;
use crate::GameState;
use crate::PlayerState;

verus! {

/// Health that one hit of an enemy laser takes from the player.
pub const PLAYER_DAMAGE: i32 = 10;

/// Score that one destroyed enemy is worth.
pub const KILL_SCORE: u32 = 5;

/// Whether two axis-aligned boxes overlap, each given by its centre and its
/// size. Boxes that only touch do not overlap.
pub open spec fn spec_collide(a_pos: Vec2, a_size: Vec2, b_pos: Vec2, b_size: Vec2) -> bool {
    &&& 2 * a_pos.x - a_size.x < 2 * b_pos.x + b_size.x
    &&& 2 * a_pos.x + a_size.x > 2 * b_pos.x - b_size.x
    &&& 2 * a_pos.y - a_size.y < 2 * b_pos.y + b_size.y
    &&& 2 * a_pos.y + a_size.y > 2 * b_pos.y - b_size.y
}

#[verifier::when_used_as_spec(spec_collide)]
pub fn collide(a_pos: Vec2, a_size: Vec2, b_pos: Vec2, b_size: Vec2) -> (overlap: bool)
    ensures
        overlap == spec_collide(a_pos, a_size, b_pos, b_size),
{
    let ax: i64 = 2 * (a_pos.x as i64);
    let ay: i64 = 2 * (a_pos.y as i64);
    let bx: i64 = 2 * (b_pos.x as i64);
    let by: i64 = 2 * (b_pos.y as i64);
    ax - (a_size.x as i64) < bx + (b_size.x as i64) && ax + (a_size.x as i64) > bx - (
    b_size.x as i64) && ay - (a_size.y as i64) < by + (b_size.y as i64) && ay + (a_size.y as i64)
        > by - (b_size.y as i64)
}

/// Overlap does not depend on the order of the two boxes.
pub proof fn lemma_collide_symmetric(a_pos: Vec2, a_size: Vec2, b_pos: Vec2, b_size: Vec2)
    ensures
        spec_collide(a_pos, a_size, b_pos, b_size) == spec_collide(b_pos, b_size, a_pos, a_size),
{
}

/// Two boxes of the same size, wider and higher than nothing, overlap when
/// their centres are closer than their width on one axis and closer than
/// their height on the other.
pub proof fn lemma_collide_same_size(a_pos: Vec2, b_pos: Vec2, size: Vec2)
    requires
        size.x > 0,
        size.y > 0,
    ensures
        spec_collide(a_pos, size, b_pos, size) <==> (vstd::math::abs(a_pos.x - b_pos.x) < size.x
            && vstd::math::abs(a_pos.y - b_pos.y) < size.y),
{
}

/// Whether the sprites of two entities overlap, each at its position and
/// with its scaled size.
pub open spec fn spec_hits(a: Bundle, b: Bundle) -> bool {
    spec_collide(
        a.transform.translation,
        a.spec_scaled_size(),
        b.transform.translation,
        b.spec_scaled_size(),
    )
}

#[verifier::when_used_as_spec(spec_hits)]
pub fn hits(a: Bundle, b: Bundle) -> (overlap: bool)
    ensures
        overlap == spec_hits(a, b),
{
    collide(a.transform.translation, a.scaled_size(), b.transform.translation, b.scaled_size())
}

/// The slot holds a laser of the player that has a size.
pub open spec fn is_player_laser(slot: Option<Bundle>) -> bool {
    slot matches Some(b) && b.laser is Some && b.from_player is Some && b.sprite_size is Some
}

/// The slot holds an enemy that has a size.
pub open spec fn is_enemy_target(slot: Option<Bundle>) -> bool {
    slot matches Some(b) && b.enemy is Some && b.sprite_size is Some
}

/// The slot holds a laser of an enemy that has a size.
pub open spec fn is_enemy_laser(slot: Option<Bundle>) -> bool {
    slot matches Some(b) && b.laser is Some && b.from_enemy is Some && b.sprite_size is Some
}

/// The slot holds a player that has a size and a health.
pub open spec fn is_player_target(slot: Option<Bundle>) -> bool {
    slot matches Some(b) && b.player is Some && b.sprite_size is Some && b.attributes is Some
}

fn holds_player_laser(slot: &Option<Bundle>) -> (r: bool)
    ensures
        r == is_player_laser(*slot),
{
    match slot {
        Some(b) => b.laser.is_some() && b.from_player.is_some() && b.sprite_size.is_some(),
        None => false,
    }
}

fn holds_enemy_target(slot: &Option<Bundle>) -> (r: bool)
    ensures
        r == is_enemy_target(*slot),
{
    match slot {
        Some(b) => b.enemy.is_some() && b.sprite_size.is_some(),
        None => false,
    }
}

fn holds_enemy_laser(slot: &Option<Bundle>) -> (r: bool)
    ensures
        r == is_enemy_laser(*slot),
{
    match slot {
        Some(b) => b.laser.is_some() && b.from_enemy.is_some() && b.sprite_size.is_some(),
        None => false,
    }
}

fn holds_player_target(slot: &Option<Bundle>) -> (r: bool)
    ensures
        r == is_player_target(*slot),
{
    match slot {
        Some(b) => b.player.is_some() && b.sprite_size.is_some() && b.attributes.is_some(),
        None => false,
    }
}

/// Whether the laser in slot `laser` destroys the enemy in slot `enemy`:
/// the enemy is not marked as destroyed, and the two overlap.
pub open spec fn destroys(
    entities: Seq<Option<Bundle>>,
    laser: int,
    destroyed: Set<Entity>,
    enemy: int,
) -> bool {
    &&& 0 <= enemy < entities.len()
    &&& is_enemy_target(entities[enemy])
    &&& !destroyed.contains(Entity(enemy as usize))
    &&& spec_hits(entities[laser].unwrap(), entities[enemy].unwrap())
}

/// The first slot from `from` on that holds an enemy which the laser in
/// slot `laser` destroys.
pub open spec fn first_hit(
    entities: Seq<Option<Bundle>>,
    laser: int,
    destroyed: Set<Entity>,
    from: int,
) -> Option<int>
    decreases entities.len() - from,
{
    if from < 0 || from >= entities.len() {
        None
    } else if destroys(entities, laser, destroyed, from) {
        Some(from)
    } else {
        first_hit(entities, laser, destroyed, from + 1)
    }
}

/// What the lasers of the player have done so far: the entities marked as
/// destroyed, and the slots of the enemies that were hit, in the order of
/// the hits.
pub struct Tally {
    pub destroyed: Set<Entity>,
    pub killed: Seq<int>,
}

/// The tally after the lasers in the first `n` slots had their turn,
/// starting from `start`. Each laser of the player that is not marked as
/// destroyed destroys the first enemy, in the order of the slots, that it
/// overlaps and that is not marked; both are then marked.
pub open spec fn resolved(entities: Seq<Option<Bundle>>, start: Tally, n: int) -> Tally
    decreases n,
{
    if n <= 0 {
        start
    } else {
        let t = resolved(entities, start, n - 1);
        if n <= entities.len() && is_player_laser(entities[n - 1]) && !t.destroyed.contains(
            Entity((n - 1) as usize),
        ) {
            match first_hit(entities, n - 1, t.destroyed, 0) {
                Some(e) => Tally {
                    destroyed: t.destroyed.insert(Entity((n - 1) as usize)).insert(
                        Entity(e as usize),
                    ),
                    killed: t.killed.push(e),
                },
                None => t,
            }
        } else {
            t
        }
    }
}

/// The tally of one tick in which `destroyed` were marked before the
/// lasers had their turn.
pub open spec fn kills(entities: Seq<Option<Bundle>>, destroyed: Set<Entity>) -> Tally {
    resolved(
        entities,
        Tally { destroyed, killed: Seq::empty() },
        entities.len() as int,
    )
}

/// The number of hits does not go down as more lasers have their turn.
pub proof fn lemma_resolved_grows(entities: Seq<Option<Bundle>>, start: Tally, n: int, m: int)
    requires
        n <= m,
    ensures
        resolved(entities, start, n).killed.len() <= resolved(entities, start, m).killed.len(),
    decreases m - n,
{
    if n < m {
        lemma_resolved_grows(entities, start, n, m - 1);
        if m <= 0 {
            assert(resolved(entities, start, m) == start);
            assert(resolved(entities, start, m - 1) == start);
        }
    }
}

/// The requests for an explosion where each of the enemies in the slots
/// `killed` was.
pub open spec fn wreckage(entities: Seq<Option<Bundle>>, killed: Seq<int>) -> Seq<Bundle> {
    Seq::new(
        killed.len(),
        |k: int| spec_explosion_request(entities[killed[k]].unwrap().transform.translation),
    )
}

/// The score after `kills` more enemies were destroyed. It stops at the
/// largest score that the machine holds.
pub open spec fn scored(score: u32, kills: nat) -> u32 {
    if score + KILL_SCORE * kills > u32::MAX {
        u32::MAX
    } else {
        (score + KILL_SCORE * kills) as u32
    }
}

/// Lets each laser of the player destroy the first enemy that it overlaps.
///
/// Lasers and enemies that are already queued for despawn take no part. For
/// each hit, laser and enemy are queued for despawn, the enemy is taken off
/// the count, a request for an explosion is spawned where it was, its sound
/// is asked for, and the score goes up by `KILL_SCORE`.
///
/// The count must not be lower than the number of enemies hit.
pub fn player_laser_hit_enemy_system(
    commands: &mut Commands,
    enemy_count: &mut EnemyCount,
    entities: &Vec<Option<Bundle>>,
    game_state: &mut GameState,
    audio: &mut Audio,
)
    requires
        old(commands).wf(),
        kills(entities@, old(commands).despawned()).killed.len() <= old(enemy_count).0,
    ensures
        final(commands).wf(),
        ({
            let tally = kills(entities@, old(commands).despawned());
            &&& final(commands).despawned() == tally.destroyed
            &&& final(commands).spawned() == old(commands).spawned() + wreckage(
                entities@,
                tally.killed,
            )
            &&& final(enemy_count).0 == old(enemy_count).0 - tally.killed.len()
            &&& final(game_state).score == scored(old(game_state).score, tally.killed.len())
            &&& final(audio).played() == old(audio).played() + Seq::new(
                tally.killed.len(),
                |k: int| AudioCue::EnemyExploded,
            )
        }),
{
    let ghost start = Tally { destroyed: commands.despawned(), killed: Seq::empty() };
    let mut i: usize = 0;
    assert(commands.spawned() =~= old(commands).spawned() + wreckage(
        entities@,
        Seq::<int>::empty(),
    ));
    assert(audio.played() =~= old(audio).played() + Seq::new(
        0,
        |k: int| AudioCue::EnemyExploded,
    ));
    while i < entities.len()
        invariant
            i <= entities.len(),
            commands.wf(),
            start == (Tally { destroyed: old(commands).despawned(), killed: Seq::empty() }),
            kills(entities@, old(commands).despawned()).killed.len() <= old(enemy_count).0,
            commands.despawned() == resolved(entities@, start, i as int).destroyed,
            commands.spawned() == old(commands).spawned() + wreckage(
                entities@,
                resolved(entities@, start, i as int).killed,
            ),
            enemy_count.0 == old(enemy_count).0 - resolved(entities@, start, i as int).killed.len(),
            game_state.score == scored(
                old(game_state).score,
                resolved(entities@, start, i as int).killed.len(),
            ),
            audio.played() == old(audio).played() + Seq::new(
                resolved(entities@, start, i as int).killed.len(),
                |k: int| AudioCue::EnemyExploded,
            ),
        decreases entities.len() - i,
    {
        let ghost before = resolved(entities@, start, i as int);
        if holds_player_laser(&entities[i]) && !commands.is_despawned(Entity(i)) {
            let laser = entities[i].unwrap();
            let mut hit: Option<usize> = None;
            let mut j: usize = 0;
            while j < entities.len() && hit.is_none()
                invariant
                    j <= entities.len(),
                    i < entities.len(),
                    entities@[i as int] == Some(laser),
                    commands.wf(),
                    commands.despawned() == before.destroyed,
                    hit is None ==> first_hit(entities@, i as int, before.destroyed, 0)
                        == first_hit(entities@, i as int, before.destroyed, j as int),
                    hit matches Some(e) ==> e < entities.len() && destroys(
                        entities@,
                        i as int,
                        before.destroyed,
                        e as int,
                    ) && first_hit(entities@, i as int, before.destroyed, 0) == Some(e as int),
                decreases entities.len() - j + (if hit is None { 1int } else { 0int }),
            {
                if holds_enemy_target(&entities[j]) && !commands.is_despawned(Entity(j)) && hits(
                    laser,
                    entities[j].unwrap(),
                ) {
                    hit = Some(j);
                } else {
                    j += 1;
                }
            }
            if let Some(e) = hit {
                let enemy = entities[e].unwrap();
                proof {
                    lemma_resolved_grows(entities@, start, i + 1, entities@.len() as int);
                }
                commands.despawn(Entity(i));
                commands.despawn(Entity(e));
                enemy_count.0 -= 1;
                commands.spawn(explosion_request(enemy.transform.translation));
                audio.play(AudioCue::EnemyExploded);
                game_state.score = if game_state.score <= u32::MAX - KILL_SCORE {
                    game_state.score + KILL_SCORE
                } else {
                    u32::MAX
                };
                proof {
                    let after = resolved(entities@, start, i + 1);
                    assert(after.killed == before.killed.push(e as int));
                    assert(commands.spawned() =~= old(commands).spawned() + wreckage(
                        entities@,
                        after.killed,
                    ));
                    assert(audio.played() =~= old(audio).played() + Seq::new(
                        after.killed.len(),
                        |k: int| AudioCue::EnemyExploded,
                    ));
                    assert(KILL_SCORE * after.killed.len() == KILL_SCORE * before.killed.len()
                        + KILL_SCORE) by (nonlinear_arith)
                        requires
                            after.killed.len() == before.killed.len() + 1,
                    ;
                    assert(KILL_SCORE * before.killed.len() >= 0) by (nonlinear_arith);
                }
            }
        }
        i += 1;
    }
}

/// The first slot from `from` on that holds a laser of an enemy which
/// overlaps the player in slot `player`.
pub open spec fn first_laser_hit(entities: Seq<Option<Bundle>>, player: int, from: int) -> Option<
    int,
>
    decreases entities.len() - from,
{
    if from < 0 || from >= entities.len() {
        None
    } else if is_enemy_laser(entities[from]) && spec_hits(
        entities[from].unwrap(),
        entities[player].unwrap(),
    ) {
        Some(from)
    } else {
        first_laser_hit(entities, player, from + 1)
    }
}

/// The slots of the player and of the laser that strikes it: there is
/// exactly one player, it has a size and a health, and the laser is the
/// first laser of an enemy, in the order of the slots, that overlaps it.
pub open spec fn struck(entities: Seq<Option<Bundle>>) -> Option<(int, int)> {
    match spec_single_player(entities) {
        Some(p) => if is_player_target(entities[p]) {
            match first_laser_hit(entities, p, 0) {
                Some(l) => Some((p, l)),
                None => None,
            }
        } else {
            None
        },
        None => None,
    }
}

/// The craft after a hit: its health is lower by `PLAYER_DAMAGE`, and
/// stops at the least health that the machine holds.
pub open spec fn damaged(b: Bundle) -> Bundle {
    match b.attributes {
        Some(a) => Bundle {
            attributes: Some(Attributes { health: saturate(a.health - PLAYER_DAMAGE) as i32 }),
            ..b
        },
        None => b,
    }
}

/// The craft after `k` hits.
pub open spec fn damaged_times(b: Bundle, k: nat) -> Bundle
    decreases k,
{
    if k == 0 {
        b
    } else {
        damaged(damaged_times(b, (k - 1) as nat))
    }
}

/// Damage adds up: after `k` hits a craft has `PLAYER_DAMAGE * k` less
/// health than it had, as long as the machine holds that number, and is
/// otherwise as it was. So a player that starts with a health of 100 is
/// destroyed by its tenth hit, and by none before.
pub proof fn lemma_damage_adds_up(b: Bundle, health: i32, k: nat)
    requires
        b.attributes == Some(Attributes { health }),
        health - PLAYER_DAMAGE * k >= i32::MIN,
    ensures
        damaged_times(b, k) == (Bundle {
            attributes: Some(Attributes { health: (health - PLAYER_DAMAGE * k) as i32 }),
            ..b
        }),
        k > 0 ==> (destroyed_by_hit(damaged_times(b, (k - 1) as nat)) <==> health - PLAYER_DAMAGE
            * k <= 0),
        health == 100 && k > 0 ==> (destroyed_by_hit(damaged_times(b, (k - 1) as nat)) <==> k
            >= 10),
    decreases k,
{
    if k > 0 {
        assert(PLAYER_DAMAGE * k == PLAYER_DAMAGE * (k - 1) + PLAYER_DAMAGE && PLAYER_DAMAGE * (k
            - 1) >= 0) by (nonlinear_arith)
            requires
                k > 0,
        ;
        lemma_damage_adds_up(b, health, (k - 1) as nat);
    } else {
        assert(PLAYER_DAMAGE * k == 0) by (nonlinear_arith)
            requires
                k == 0,
        ;
    }
}

/// Whether the hit that `b` takes destroys it: its health is then zero or
/// less.
pub open spec fn destroyed_by_hit(b: Bundle) -> bool {
    damaged(b).attributes matches Some(a) && a.health <= 0
}

/// Lets the first laser of an enemy that overlaps the player hit it; no
/// other laser hits in the same tick.
///
/// The hit takes `PLAYER_DAMAGE` from the health of the player, and the
/// laser is queued for despawn. If the health is then zero or less, the
/// player is queued for despawn, its death at `now` is recorded, a request
/// for an explosion is spawned where it was, and the sound of its explosion
/// is asked for. Otherwise the sound of the hit is asked for. Without a
/// hit nothing changes.
pub fn enemy_laser_hit_player_system(
    commands: &mut Commands,
    player_state: &mut PlayerState,
    now: u64,
    entities: &mut Vec<Option<Bundle>>,
    audio: &mut Audio,
)
    requires
        old(commands).wf(),
    ensures
        final(commands).wf(),
        struck(old(entities)@) is None ==> {
            &&& final(entities)@ == old(entities)@
            &&& final(commands).spawned() == old(commands).spawned()
            &&& final(commands).despawned() == old(commands).despawned()
            &&& *final(player_state) == *old(player_state)
            &&& final(audio).played() == old(audio).played()
        },
        struck(old(entities)@) matches Some((p, l)) ==> {
            let player = old(entities)@[p].unwrap();
            &&& final(entities)@ == old(entities)@.update(p, Some(damaged(player)))
            &&& destroyed_by_hit(player) ==> {
                &&& final(commands).despawned() == old(commands).despawned().insert(
                    Entity(l as usize),
                ).insert(Entity(p as usize))
                &&& final(commands).spawned() == old(commands).spawned().push(
                    spec_explosion_request(player.transform.translation),
                )
                &&& *final(player_state) == (PlayerState { on: false, last_shot: Some(now) })
                &&& final(audio).played() == old(audio).played().push(AudioCue::PlayerExploded)
            }
            &&& !destroyed_by_hit(player) ==> {
                &&& final(commands).despawned() == old(commands).despawned().insert(
                    Entity(l as usize),
                )
                &&& final(commands).spawned() == old(commands).spawned()
                &&& *final(player_state) == *old(player_state)
                &&& final(audio).played() == old(audio).played().push(AudioCue::PlayerHit)
            }
        },
{
    let found = single_player(entities);
    if found.is_none() {
        return ;
    }
    let p = found.unwrap();
    if !holds_player_target(&entities[p]) {
        return ;
    }
    let player = entities[p].unwrap();
    let mut hit: Option<usize> = None;
    let mut j: usize = 0;
    while j < entities.len() && hit.is_none()
        invariant
            j <= entities.len(),
            p < entities.len(),
            entities@ == old(entities)@,
            entities@[p as int] == Some(player),
            hit is None ==> first_laser_hit(entities@, p as int, 0) == first_laser_hit(
                entities@,
                p as int,
                j as int,
            ),
            hit matches Some(l) ==> l < entities.len() && first_laser_hit(entities@, p as int, 0)
                == Some(l as int),
        decreases entities.len() - j + (if hit is None { 1int } else { 0int }),
    {
        if holds_enemy_laser(&entities[j]) && hits(entities[j].unwrap(), player) {
            hit = Some(j);
        } else {
            j += 1;
        }
    }
    if let Some(l) = hit {
        let health = player.attributes.unwrap().health;
        let mut hurt = player;
        hurt.attributes = Some(
            Attributes { health: saturate_i64(health as i64 - PLAYER_DAMAGE as i64) },
        );
        entities[p] = Some(hurt);
        commands.despawn(Entity(l));
        if hurt.attributes.unwrap().health <= 0 {
            commands.despawn(Entity(p));
            player_state.shot(now);
            commands.spawn(explosion_request(player.transform.translation));
            audio.play(AudioCue::PlayerExploded);
        } else {
            audio.play(AudioCue::PlayerHit);
        }
    }
}

} // verus!
