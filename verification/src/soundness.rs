//! Every system keeps the counters of a frame in step with its slots and
//! commands.
use vstd::prelude::*;
use crate::collision::destroyed_by_hit;
use crate::collision::destroys;
use crate::collision::first_hit;
use crate::collision::first_laser_hit;
use crate::collision::is_enemy_laser;
use crate::collision::is_player_laser;
use crate::collision::kills;
use crate::collision::resolved;
use crate::collision::struck;
use crate::collision::wreckage;
use crate::collision::Tally;
use crate::commands::Entity;
use crate::components::Bundle;
use crate::enemy::enemy_volley;
use crate::enemy::EnemyDraws;
use crate::enemy::Heading;
use crate::explosion::explosions;
use crate::frame::alike;
use crate::frame::coherent;
use crate::frame::same_make;
use crate::frame::Frame;
use crate::player::player_lasers;
use crate::query::spec_single_player;
use crate::store::cleared;
use crate::store::count;
use crate::store::filled;
use crate::store::holds;
use crate::store::lemma_count_add;
use crate::store::lemma_count_alike;
use crate::store::lemma_count_none;
use crate::store::lemma_count_update;
use crate::store::Craft;
use crate::WinSize;

verus! {

/// The bundle is no craft.
pub open spec fn inert(b: Bundle) -> bool {
    b.player is None && b.enemy is None
}

/// The slot holds what comes and goes without a hit on a craft: a laser, an
/// explosion, a request for one, or what is removed off screen.
pub open spec fn passing(slot: Option<Bundle>) -> bool {
    slot matches Some(b) && (b.laser is Some || b.explosion is Some || b.explosion_to_spawn
        is Some || (b.velocity is Some && b.movable == Some(
        crate::components::Movable { auto_despawn: true },
    )))
}

/// One more bundle to spawn adds one to the count of its kind.
pub proof fn lemma_count_pushed(spawned: Seq<Bundle>, b: Bundle, craft: Craft)
    ensures
        count(filled(spawned.push(b)), craft) == count(filled(spawned), craft) + (if holds(
            Some(b),
            craft,
        ) {
            1nat
        } else {
            0nat
        }),
{
    assert(filled(spawned.push(b)).drop_last() =~= filled(spawned));
}

/// More bundles to spawn, none of them a craft, leave the counts alone.
pub proof fn lemma_count_appended(spawned: Seq<Bundle>, more: Seq<Bundle>, craft: Craft)
    requires
        forall|k: int| 0 <= k < more.len() ==> inert(#[trigger] more[k]),
    ensures
        count(filled(spawned + more), craft) == count(filled(spawned), craft),
{
    assert(filled(spawned + more) =~= filled(spawned) + filled(more));
    lemma_count_add(filled(spawned), filled(more), craft);
    assert forall|k: int| 0 <= k < filled(more).len() implies !holds(
        #[trigger] filled(more)[k],
        craft,
    ) by {
        assert(inert(more[k]));
    }
    lemma_count_none(filled(more), craft);
}

/// Slots of the same make, of which only such as hold no craft are newly
/// removed, hold as many craft as before.
pub proof fn lemma_count_kept(
    before: Seq<Option<Bundle>>,
    gone: Set<Entity>,
    after: Seq<Option<Bundle>>,
    gone_after: Set<Entity>,
    craft: Craft,
)
    requires
        same_make(before, after),
        forall|i: int|
            0 <= i < before.len() ==> (#[trigger] gone_after.contains(Entity(i as usize)) <==> (
            gone.contains(Entity(i as usize)) || !holds(before[i], craft) && gone_after.contains(
                Entity(i as usize),
            ))),
    ensures
        count(cleared(after, gone_after), craft) == count(cleared(before, gone), craft),
{
    let a = cleared(before, gone);
    let b = cleared(after, gone_after);
    assert forall|i: int| 0 <= i < a.len() implies holds(a[i], craft) == holds(b[i], craft) by {
        assert(alike(before[i], after[i]));
        assert(gone_after.contains(Entity(i as usize)) <==> (gone.contains(Entity(i as usize))
            || !holds(before[i], craft) && gone_after.contains(Entity(i as usize))));
    }
    lemma_count_alike(a, b, craft);
}

/// A system that changes entities in place without changing their make,
/// removes no craft, spawns none, and leaves the counters alone keeps the
/// frame sound.
pub proof fn lemma_sound_kept(f: Frame, g: Frame, more: Seq<Bundle>)
    requires
        f.sound(),
        same_make(f.entities, g.entities),
        forall|e: Entity| f.despawned.contains(e) ==> g.despawned.contains(e),
        forall|i: int|
            0 <= i < f.entities.len() && #[trigger] g.despawned.contains(Entity(i as usize))
                && !f.despawned.contains(Entity(i as usize)) ==> passing(f.entities[i]),
        g.spawned == f.spawned + more,
        forall|k: int| 0 <= k < more.len() ==> inert(#[trigger] more[k]),
        g.enemy_count == f.enemy_count,
        g.player_state.on == f.player_state.on,
    ensures
        g.sound(),
        f.player_untouched() ==> g.player_untouched(),
{
    assert forall|i: int| 0 <= i < g.entities.len() implies coherent(#[trigger] g.entities[i]) by {
        assert(alike(f.entities[i], g.entities[i]));
        assert(coherent(f.entities[i]));
    }
    assert forall|k: int| 0 <= k < g.spawned.len() implies coherent(
        Some(#[trigger] g.spawned[k]),
    ) by {
        if k < f.spawned.len() {
            assert(g.spawned[k] == f.spawned[k]);
        } else {
            assert(g.spawned[k] == more[k - f.spawned.len()]);
            assert(inert(more[k - f.spawned.len()]));
        }
    }
    assert forall|craft: Craft| g.alive(craft) == f.alive(craft) by {
        assert forall|i: int| 0 <= i < f.entities.len() implies (#[trigger] g.despawned.contains(
            Entity(i as usize),
        ) <==> (f.despawned.contains(Entity(i as usize)) || !holds(f.entities[i], craft)
            && g.despawned.contains(Entity(i as usize)))) by {
            assert(coherent(f.entities[i]));
        }
        lemma_count_kept(f.entities, f.despawned, g.entities, g.despawned, craft);
        lemma_count_appended(f.spawned, more, craft);
    }
    assert(g.alive(Craft::Enemy) == f.alive(Craft::Enemy));
    assert(g.alive(Craft::Player) == f.alive(Craft::Player));
    if f.player_untouched() {
        assert forall|i: int|
            0 <= i < g.entities.len() && holds(
                #[trigger] g.entities[i],
                Craft::Player,
            ) implies !g.despawned.contains(Entity(i as usize)) by {
            assert(alike(f.entities[i], g.entities[i]));
            assert(coherent(f.entities[i]));
            assert(holds(f.entities[i], Craft::Player));
        }
    }
}

/// The spawn of the player keeps the frame sound.
pub proof fn lemma_player_spawned(f: Frame, now: u64, win_size: &WinSize)
    requires
        f.sound(),
    ensures
        f.player_spawned(now, win_size).sound(),
        f.player_untouched() ==> f.player_spawned(now, win_size).player_untouched(),
{
    let g = f.player_spawned(now, win_size);
    if f.player_state.may_spawn(now) {
        let b = crate::player::spec_player_bundle(win_size);
        lemma_count_pushed(f.spawned, b, Craft::Player);
        lemma_count_pushed(f.spawned, b, Craft::Enemy);
        assert forall|k: int| 0 <= k < g.spawned.len() implies coherent(
            Some(#[trigger] g.spawned[k]),
        ) by {
            if k < f.spawned.len() {
                assert(g.spawned[k] == f.spawned[k]);
            }
        }
    }
}

/// The spawn of an enemy keeps the frame sound.
pub proof fn lemma_enemy_spawned(f: Frame, win_size: &WinSize, draws: &EnemyDraws)
    requires
        f.sound(),
    ensures
        f.enemy_spawned(win_size, draws).sound(),
        f.player_untouched() ==> f.enemy_spawned(win_size, draws).player_untouched(),
{
    let g = f.enemy_spawned(win_size, draws);
    if f.enemy_count.0 < crate::MAX_ENEMY_COUNT {
        let made = f.formation_maker.spec_make_from(win_size, &draws.formation);
        let b = crate::enemy::spec_enemy_bundle(draws.x, draws.y, made.1);
        lemma_count_pushed(f.spawned, b, Craft::Player);
        lemma_count_pushed(f.spawned, b, Craft::Enemy);
        assert forall|k: int| 0 <= k < g.spawned.len() implies coherent(
            Some(#[trigger] g.spawned[k]),
        ) by {
            if k < f.spawned.len() {
                assert(g.spawned[k] == f.spawned[k]);
            }
        }
    }
}

/// The lasers of a volley are no craft.
pub proof fn lemma_volley_inert(entities: Seq<Option<Bundle>>)
    ensures
        forall|k: int| 0 <= k < enemy_volley(entities).len() ==> inert(
            #[trigger] enemy_volley(entities)[k],
        ),
    decreases entities.len(),
{
    if entities.len() > 0 {
        lemma_volley_inert(entities.drop_last());
        let rest = enemy_volley(entities.drop_last());
        assert forall|k: int| 0 <= k < enemy_volley(entities).len() implies inert(
            #[trigger] enemy_volley(entities)[k],
        ) by {
            if k < rest.len() {
                assert(enemy_volley(entities)[k] == rest[k]);
            }
        }
    }
}

/// A volley of the enemies keeps the frame sound.
pub proof fn lemma_enemies_fired(f: Frame)
    requires
        f.sound(),
    ensures
        f.enemies_fired().sound(),
        f.player_untouched() ==> f.enemies_fired().player_untouched(),
{
    lemma_volley_inert(f.entities);
    lemma_sound_kept(f, f.enemies_fired(), enemy_volley(f.entities));
}

/// Steering keeps the frame sound.
pub proof fn lemma_player_steered(f: Frame, move_left: bool, move_right: bool)
    requires
        f.sound(),
    ensures
        f.player_steered(move_left, move_right).sound(),
        f.player_untouched() ==> f.player_steered(move_left, move_right).player_untouched(),
{
    let g = f.player_steered(move_left, move_right);
    assert(g.spawned =~= f.spawned + Seq::<Bundle>::empty());
    if let Some(i) = spec_single_player(f.entities) {
        if exists|i: int| crate::query::sole_player(f.entities, i) {
            let k = choose|i: int| crate::query::sole_player(f.entities, i);
            assert(0 <= k < f.entities.len());
        }
    }
    lemma_sound_kept(f, g, Seq::<Bundle>::empty());
}

/// The fire of the player keeps the frame sound.
pub proof fn lemma_player_fired(f: Frame, fire: bool)
    requires
        f.sound(),
    ensures
        f.player_fired(fire).sound(),
        f.player_untouched() ==> f.player_fired(fire).player_untouched(),
{
    let g = f.player_fired(fire);
    if fire && spec_single_player(f.entities) is Some {
        let at = f.entities[spec_single_player(f.entities).unwrap()].unwrap().transform.translation;
        lemma_sound_kept(f, g, player_lasers(at));
    } else {
        assert(g.spawned =~= f.spawned + Seq::<Bundle>::empty());
        lemma_sound_kept(f, g, Seq::<Bundle>::empty());
    }
}

/// Motion keeps the frame sound.
pub proof fn lemma_moved(f: Frame, win_size: &WinSize)
    requires
        f.sound(),
    ensures
        f.moved(win_size).sound(),
        f.player_untouched() ==> f.moved(win_size).player_untouched(),
{
    let g = f.moved(win_size);
    assert(g.spawned =~= f.spawned + Seq::<Bundle>::empty());
    lemma_sound_kept(f, g, Seq::<Bundle>::empty());
}

/// The steps of the enemies along their orbits keep the frame sound.
pub proof fn lemma_orbited(f: Frame, headings: Seq<Heading>)
    requires
        f.sound(),
    ensures
        f.orbited(headings).sound(),
        f.player_untouched() ==> f.orbited(headings).player_untouched(),
{
    let g = f.orbited(headings);
    assert(g.spawned =~= f.spawned + Seq::<Bundle>::empty());
    lemma_sound_kept(f, g, Seq::<Bundle>::empty());
}

/// The explosions that requests ask for are no craft.
pub proof fn lemma_explosions_inert(entities: Seq<Option<Bundle>>)
    ensures
        forall|k: int| 0 <= k < explosions(entities).len() ==> inert(
            #[trigger] explosions(entities)[k],
        ),
    decreases entities.len(),
{
    if entities.len() > 0 {
        lemma_explosions_inert(entities.drop_last());
        let rest = explosions(entities.drop_last());
        assert forall|k: int| 0 <= k < explosions(entities).len() implies inert(
            #[trigger] explosions(entities)[k],
        ) by {
            if k < rest.len() {
                assert(explosions(entities)[k] == rest[k]);
            }
        }
    }
}

/// Serving the requests for explosions keeps the frame sound.
pub proof fn lemma_explosions_spawned(f: Frame)
    requires
        f.sound(),
    ensures
        f.explosions_spawned().sound(),
{
    lemma_explosions_inert(f.entities);
    lemma_sound_kept(f, f.explosions_spawned(), explosions(f.entities));
}

/// Animation keeps the frame sound.
pub proof fn lemma_animated(f: Frame, delta: u64)
    requires
        f.sound(),
    ensures
        f.animated(delta).sound(),
{
    let g = f.animated(delta);
    assert(g.spawned =~= f.spawned + Seq::<Bundle>::empty());
    lemma_sound_kept(f, g, Seq::<Bundle>::empty());
}

/// The enemy that `first_hit` finds is one that the laser destroys.
pub proof fn lemma_first_hit(
    entities: Seq<Option<Bundle>>,
    laser: int,
    destroyed: Set<Entity>,
    from: int,
)
    requires
        0 <= from,
    ensures
        first_hit(entities, laser, destroyed, from) matches Some(e) ==> from <= e && destroys(
            entities,
            laser,
            destroyed,
            e,
        ),
    decreases entities.len() - from,
{
    if from < entities.len() && !destroys(entities, laser, destroyed, from) {
        lemma_first_hit(entities, laser, destroyed, from + 1);
    }
}

/// Marking one more slot as destroyed takes one off the count of the kind
/// of craft that it holds, if it was not marked, and nothing off the other.
pub proof fn lemma_count_marked(
    entities: Seq<Option<Bundle>>,
    destroyed: Set<Entity>,
    i: int,
    craft: Craft,
)
    requires
        0 <= i < entities.len() <= usize::MAX,
    ensures
        count(cleared(entities, destroyed.insert(Entity(i as usize))), craft) + (if holds(
            entities[i],
            craft,
        ) && !destroyed.contains(Entity(i as usize)) {
            1nat
        } else {
            0nat
        }) == count(cleared(entities, destroyed), craft),
{
    let before = cleared(entities, destroyed);
    let after = cleared(entities, destroyed.insert(Entity(i as usize)));
    assert(after =~= before.update(i, None)) by {
        assert forall|j: int| 0 <= j < entities.len() implies after[j] == before.update(
            i,
            None,
        )[j] by {
            if j != i {
                assert(Entity(j as usize) != Entity(i as usize));
            }
        }
    }
    lemma_count_update(before, i, None, craft);
}

/// The hits of the lasers of the player take from the enemies alive as many
/// as were hit, remove no player, and mark nothing but lasers and enemies.
pub proof fn lemma_resolved_counts(entities: Seq<Option<Bundle>>, start: Tally, n: int)
    requires
        entities.len() <= usize::MAX,
        forall|i: int| 0 <= i < entities.len() ==> coherent(#[trigger] entities[i]),
        0 <= n <= entities.len(),
    ensures
        ({
            let t = resolved(entities, start, n);
            &&& count(cleared(entities, t.destroyed), Craft::Enemy) + t.killed.len() == count(
                cleared(entities, start.destroyed),
                Craft::Enemy,
            ) + start.killed.len()
            &&& count(cleared(entities, t.destroyed), Craft::Player) == count(
                cleared(entities, start.destroyed),
                Craft::Player,
            )
            &&& forall|e: Entity| start.destroyed.contains(e) ==> t.destroyed.contains(e)
            &&& forall|i: int|
                0 <= i < entities.len() && #[trigger] t.destroyed.contains(Entity(i as usize))
                    && !start.destroyed.contains(Entity(i as usize)) ==> !holds(
                    entities[i],
                    Craft::Player,
                )
        }),
    decreases n,
{
    if n > 0 {
        lemma_resolved_counts(entities, start, n - 1);
        let t = resolved(entities, start, n - 1);
        let l = n - 1;
        if is_player_laser(entities[l]) && !t.destroyed.contains(Entity(l as usize)) {
            lemma_first_hit(entities, l, t.destroyed, 0);
            if let Some(e) = first_hit(entities, l, t.destroyed, 0) {
                assert(coherent(entities[l]));
                assert(coherent(entities[e]));
                let with_laser = t.destroyed.insert(Entity(l as usize));
                lemma_count_marked(entities, t.destroyed, l, Craft::Enemy);
                lemma_count_marked(entities, t.destroyed, l, Craft::Player);
                assert(e != l);
                assert(Entity(e as usize) != Entity(l as usize));
                assert(!with_laser.contains(Entity(e as usize)));
                lemma_count_marked(entities, with_laser, e, Craft::Enemy);
                lemma_count_marked(entities, with_laser, e, Craft::Player);
                let after = resolved(entities, start, n);
                assert(after.destroyed == with_laser.insert(Entity(e as usize)));
                assert forall|i: int|
                    0 <= i < entities.len() && #[trigger] after.destroyed.contains(
                        Entity(i as usize),
                    ) && !start.destroyed.contains(Entity(i as usize)) implies !holds(
                    entities[i],
                    Craft::Player,
                ) by {
                    if i != l && i != e {
                        assert(Entity(i as usize) != Entity(l as usize));
                        assert(Entity(i as usize) != Entity(e as usize));
                        assert(t.destroyed.contains(Entity(i as usize)));
                    }
                }
            }
        }
    }
}

/// No enemy is hit twice in a tick, nor one that was marked before: the
/// slots of the enemies hit are all different, each of them holds an enemy,
/// and each of them is marked only by its hit.
pub proof fn lemma_killed_once(entities: Seq<Option<Bundle>>, start: Tally, n: int)
    requires
        entities.len() <= usize::MAX,
        0 <= n <= entities.len(),
        start.killed.len() == 0,
    ensures
        ({
            let t = resolved(entities, start, n);
            &&& t.killed.no_duplicates()
            &&& forall|k: int|
                0 <= k < t.killed.len() ==> {
                    &&& 0 <= #[trigger] t.killed[k] < entities.len()
                    &&& crate::collision::is_enemy_target(entities[t.killed[k]])
                    &&& !start.destroyed.contains(Entity(t.killed[k] as usize))
                    &&& t.destroyed.contains(Entity(t.killed[k] as usize))
                }
        }),
    decreases n,
{
    if n > 0 {
        lemma_killed_once(entities, start, n - 1);
        let t = resolved(entities, start, n - 1);
        let l = n - 1;
        if is_player_laser(entities[l]) && !t.destroyed.contains(Entity(l as usize)) {
            lemma_first_hit(entities, l, t.destroyed, 0);
            if let Some(e) = first_hit(entities, l, t.destroyed, 0) {
                let after = resolved(entities, start, n);
                assert(after.killed == t.killed.push(e));
                assert forall|k: int| 0 <= k < t.killed.len() implies t.killed[k] != e by {
                    assert(t.destroyed.contains(Entity(t.killed[k] as usize)));
                }
                assert forall|k: int| 0 <= k < after.killed.len() implies {
                    &&& 0 <= #[trigger] after.killed[k] < entities.len()
                    &&& crate::collision::is_enemy_target(entities[after.killed[k]])
                    &&& !start.destroyed.contains(Entity(after.killed[k] as usize))
                    &&& after.destroyed.contains(Entity(after.killed[k] as usize))
                } by {
                    if k < t.killed.len() {
                        assert(after.killed[k] == t.killed[k]);
                    } else {
                        lemma_marks_kept(entities, start, n - 1);
                    }
                }
            }
        }
    }
}

/// What is marked stays marked.
pub proof fn lemma_marks_kept(entities: Seq<Option<Bundle>>, start: Tally, n: int)
    ensures
        forall|e: Entity|
            start.destroyed.contains(e) ==> resolved(entities, start, n).destroyed.contains(e),
    decreases n,
{
    if n > 0 {
        lemma_marks_kept(entities, start, n - 1);
    }
}

/// The explosions asked for where enemies were hit are no craft.
pub proof fn lemma_wreckage_inert(entities: Seq<Option<Bundle>>, killed: Seq<int>)
    ensures
        forall|k: int| 0 <= k < wreckage(entities, killed).len() ==> inert(
            #[trigger] wreckage(entities, killed)[k],
        ),
{
}

/// No more enemies are hit than are alive.
pub proof fn lemma_kills_bounded(f: Frame)
    requires
        f.sound(),
    ensures
        kills(f.entities, f.despawned).killed.len() <= f.enemy_count.0,
{
    lemma_resolved_counts(
        f.entities,
        Tally { destroyed: f.despawned, killed: Seq::empty() },
        f.entities.len() as int,
    );
}

/// The hits of the lasers of the player keep the frame sound.
pub proof fn lemma_enemies_hit(f: Frame)
    requires
        f.sound(),
    ensures
        f.enemies_hit().sound(),
        f.player_untouched() ==> f.enemies_hit().player_untouched(),
{
    let g = f.enemies_hit();
    let tally = kills(f.entities, f.despawned);
    lemma_resolved_counts(
        f.entities,
        Tally { destroyed: f.despawned, killed: Seq::empty() },
        f.entities.len() as int,
    );
    lemma_wreckage_inert(f.entities, tally.killed);
    let more = wreckage(f.entities, tally.killed);
    lemma_count_appended(f.spawned, more, Craft::Enemy);
    lemma_count_appended(f.spawned, more, Craft::Player);
    assert forall|k: int| 0 <= k < g.spawned.len() implies coherent(
        Some(#[trigger] g.spawned[k]),
    ) by {
        if k < f.spawned.len() {
            assert(g.spawned[k] == f.spawned[k]);
        } else {
            assert(g.spawned[k] == more[k - f.spawned.len()]);
        }
    }
}

/// The laser that `first_laser_hit` finds is a laser of an enemy.
pub proof fn lemma_first_laser_hit(entities: Seq<Option<Bundle>>, player: int, from: int)
    requires
        0 <= from,
    ensures
        first_laser_hit(entities, player, from) matches Some(l) ==> from <= l < entities.len()
            && is_enemy_laser(entities[l]),
    decreases entities.len() - from,
{
    if from < entities.len() && !(is_enemy_laser(entities[from]) && crate::collision::spec_hits(
        entities[from].unwrap(),
        entities[player].unwrap(),
    )) {
        lemma_first_laser_hit(entities, player, from + 1);
    }
}

/// The hit of an enemy laser on the player keeps the frame sound.
pub proof fn lemma_player_hit(f: Frame, now: u64)
    requires
        f.sound(),
        f.player_untouched(),
    ensures
        f.player_hit(now).sound(),
{
    let g = f.player_hit(now);
    if let Some((p, l)) = struck(f.entities) {
        let k = choose|i: int| crate::query::sole_player(f.entities, i);
        assert(k == p);
        lemma_first_laser_hit(f.entities, p, 0);
        let player = f.entities[p].unwrap();
        let h = Frame {
            entities: f.entities.update(p, Some(crate::collision::damaged(player))),
            despawned: f.despawned.insert(Entity(l as usize)),
            ..f
        };
        assert(h.spawned =~= f.spawned + Seq::<Bundle>::empty());
        assert forall|i: int|
            0 <= i < f.entities.len() && #[trigger] h.despawned.contains(Entity(i as usize))
                && !f.despawned.contains(Entity(i as usize)) implies passing(f.entities[i]) by {
            if i != l {
                assert(Entity(i as usize) != Entity(l as usize));
            }
        }
        lemma_sound_kept(f, h, Seq::<Bundle>::empty());
        if destroyed_by_hit(player) {
            assert(coherent(h.entities[p]));
            assert(holds(h.entities[p], Craft::Player));
            assert(!h.despawned.contains(Entity(p as usize)));
            lemma_count_marked(h.entities, h.despawned, p, Craft::Player);
            lemma_count_marked(h.entities, h.despawned, p, Craft::Enemy);
            let request = crate::explosion::spec_explosion_request(player.transform.translation);
            lemma_count_pushed(h.spawned, request, Craft::Player);
            lemma_count_pushed(h.spawned, request, Craft::Enemy);
            assert forall|k: int| 0 <= k < g.spawned.len() implies coherent(
                Some(#[trigger] g.spawned[k]),
            ) by {
                if k < f.spawned.len() {
                    assert(g.spawned[k] == f.spawned[k]);
                }
            }
            assert(g.entities == h.entities);
            assert(g.despawned == h.despawned.insert(Entity(p as usize)));
        } else {
            assert(g.played == f.played.push(crate::commands::AudioCue::PlayerHit));
            assert(g == Frame { played: g.played, ..h });
        }
    }
}

/// What is spawned into coherent slots, being coherent, leaves them so.
pub proof fn lemma_placed_all_coherent(entities: Seq<Option<Bundle>>, bundles: Seq<Bundle>)
    requires
        forall|i: int| 0 <= i < entities.len() ==> coherent(#[trigger] entities[i]),
        forall|k: int| 0 <= k < bundles.len() ==> coherent(Some(#[trigger] bundles[k])),
    ensures
        forall|i: int|
            0 <= i < crate::store::placed_all(entities, bundles).len() ==> coherent(
                #[trigger] crate::store::placed_all(entities, bundles)[i],
            ),
    decreases bundles.len(),
{
    if bundles.len() > 0 {
        lemma_placed_all_coherent(entities, bundles.drop_last());
        let before = crate::store::placed_all(entities, bundles.drop_last());
        crate::store::lemma_free_slot(before, 0);
        assert(coherent(Some(bundles[bundles.len() - 1])));
    }
}

/// When the commands of a sound frame are applied, the slots hold the
/// craft that were alive, and every craft is nothing but a craft.
pub proof fn lemma_flushed(f: Frame)
    requires
        f.sound(),
    ensures
        ({
            let entities = crate::store::flushed(f.entities, f.spawned, f.despawned);
            &&& forall|i: int| 0 <= i < entities.len() ==> coherent(#[trigger] entities[i])
            &&& count(entities, Craft::Enemy) == f.enemy_count.0
            &&& count(entities, Craft::Player) == if f.player_state.on {
                1nat
            } else {
                0nat
            }
        }),
{
    let base = cleared(f.entities, f.despawned);
    assert forall|i: int| 0 <= i < base.len() implies coherent(#[trigger] base[i]) by {
        assert(coherent(f.entities[i]));
    }
    lemma_placed_all_coherent(base, f.spawned);
    crate::store::lemma_count_placed_all(base, f.spawned, Craft::Enemy);
    crate::store::lemma_count_placed_all(base, f.spawned, Craft::Player);
}

/// Slots of the same make as slots of the same make as others are of the
/// same make as those.
pub proof fn lemma_same_make_chain(
    a: Seq<Option<Bundle>>,
    b: Seq<Option<Bundle>>,
    c: Seq<Option<Bundle>>,
)
    requires
        same_make(a, b),
        same_make(b, c),
    ensures
        same_make(a, c),
{
    assert forall|i: int| 0 <= i < a.len() implies alike(#[trigger] a[i], c[i]) by {
        assert(alike(a[i], b[i]));
        assert(alike(b[i], c[i]));
    }
}

/// What the player asks for and what moves leave every entity its make.
pub proof fn lemma_moves_keep_make(
    f: Frame,
    input: crate::Input,
    win_size: &WinSize,
    headings: Seq<Heading>,
)
    ensures
        same_make(
            f.entities,
            f.player_steered(input.move_left, input.move_right).player_fired(input.fire).moved(
                win_size,
            ).orbited(headings).entities,
        ),
{
    let a = f.player_steered(input.move_left, input.move_right);
    assert(same_make(f.entities, a.entities)) by {
        if exists|i: int| crate::query::sole_player(f.entities, i) {
            let k = choose|i: int| crate::query::sole_player(f.entities, i);
            assert(0 <= k < f.entities.len());
        }
    }
    let b = a.player_fired(input.fire);
    assert(b.entities == a.entities);
    let c = b.moved(win_size);
    assert(same_make(b.entities, c.entities));
    let d = c.orbited(headings);
    assert(same_make(c.entities, d.entities));
    lemma_same_make_chain(f.entities, a.entities, c.entities);
    lemma_same_make_chain(f.entities, c.entities, d.entities);
}

/// Hits, explosions and animation leave every entity its make.
pub proof fn lemma_hits_keep_make(f: Frame, now: u64, delta: u64)
    ensures
        same_make(
            f.entities,
            f.enemies_hit().player_hit(now).explosions_spawned().animated(delta).entities,
        ),
{
    let a = f.enemies_hit();
    assert(a.entities == f.entities);
    let b = a.player_hit(now);
    assert(same_make(a.entities, b.entities)) by {
        if let Some((p, l)) = struck(a.entities) {
            let k = choose|i: int| crate::query::sole_player(a.entities, i);
            assert(k == p);
        }
    }
    let c = b.explosions_spawned();
    assert(c.entities == b.entities);
    let d = c.animated(delta);
    assert(same_make(c.entities, d.entities));
    lemma_same_make_chain(f.entities, b.entities, d.entities);
}

} // verus!
