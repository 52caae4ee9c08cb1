//! Explosions: requests become animated explosions, which play their
//! frames once and are then removed.
use vstd::prelude::*;
use crate::commands::Commands;
use crate::commands::Entity;
use crate::components::Bundle;
use crate::components::Explosion;
use crate::components::ExplosionTimer;
use crate::components::ExplosionToSpawn;
use crate::components::TextureAtlasSprite;
use crate::components::Transform;
use crate::components::Vec2;
use crate::EXPLOSION_LENGTH;

verus! {

/// A request for an explosion at `position`.
pub open spec fn spec_explosion_request(position: Vec2) -> Bundle {
    Bundle {
        explosion_to_spawn: Some(ExplosionToSpawn(position)),
        ..Bundle::spec_bare(Transform::spec_from_translation(position))
    }
}

#[verifier::when_used_as_spec(spec_explosion_request)]
pub fn explosion_request(position: Vec2) -> (b: Bundle)
    ensures
        b == spec_explosion_request(position),
{
    let mut b = Bundle::bare(Transform::from_translation(position));
    b.explosion_to_spawn = Some(ExplosionToSpawn(position));
    b
}

/// An explosion at `position` that shows its first frame and whose timer
/// has not run yet.
pub open spec fn spec_explosion(position: Vec2) -> Bundle {
    Bundle {
        explosion: Some(Explosion),
        explosion_timer: Some(ExplosionTimer::spec_default()),
        sprite: Some(TextureAtlasSprite { index: 0 }),
        ..Bundle::spec_bare(Transform::spec_from_translation(position))
    }
}

#[verifier::when_used_as_spec(spec_explosion)]
pub fn explosion(position: Vec2) -> (b: Bundle)
    ensures
        b == spec_explosion(position),
{
    let mut b = Bundle::bare(Transform::from_translation(position));
    b.explosion = Some(Explosion);
    b.explosion_timer = Some(ExplosionTimer::default());
    b.sprite = Some(TextureAtlasSprite { index: 0 });
    b
}

/// The explosion that the request in `slot` asks for, if the slot holds a
/// request.
pub open spec fn requested(slot: Option<Bundle>) -> Option<Bundle> {
    match slot {
        Some(b) => match b.explosion_to_spawn {
            Some(request) => Some(spec_explosion(request.0)),
            None => None,
        },
        None => None,
    }
}

/// The explosions that the requests among `entities` ask for, in the order
/// of the slots.
pub open spec fn explosions(entities: Seq<Option<Bundle>>) -> Seq<Bundle>
    decreases entities.len(),
{
    if entities.len() == 0 {
        Seq::empty()
    } else {
        let rest = explosions(entities.drop_last());
        match requested(entities.last()) {
            Some(b) => rest.push(b),
            None => rest,
        }
    }
}

/// Among the first `n` slots, the entities that are requests for an
/// explosion.
pub open spec fn requests(entities: Seq<Option<Bundle>>, n: int) -> Set<Entity> {
    Set::new(|e: Entity| e.0 < n && e.0 < entities.len() && requested(entities[e.0 as int]) is Some)
}

/// Spawns the explosion that each request asks for, and asks for the
/// removal of the request.
pub fn explosion_to_spawn_system(commands: &mut Commands, entities: &Vec<Option<Bundle>>)
    requires
        old(commands).wf(),
    ensures
        final(commands).wf(),
        final(commands).spawned() == old(commands).spawned() + explosions(entities@),
        final(commands).despawned() == old(commands).despawned() + requests(
            entities@,
            entities@.len() as int,
        ),
{
    let mut i: usize = 0;
    assert(entities@.take(0) =~= Seq::<Option<Bundle>>::empty());
    assert(commands.despawned() =~= old(commands).despawned() + requests(entities@, 0));
    while i < entities.len()
        invariant
            i <= entities.len(),
            commands.wf(),
            commands.spawned() == old(commands).spawned() + explosions(entities@.take(i as int)),
            commands.despawned() == old(commands).despawned() + requests(entities@, i as int),
        decreases entities.len() - i,
    {
        proof {
            assert(entities@.take(i + 1).drop_last() =~= entities@.take(i as int));
        }
        let mut found = false;
        if let Some(b) = entities[i] {
            if let Some(request) = b.explosion_to_spawn {
                commands.spawn(explosion(request.0));
                commands.despawn(Entity(i));
                found = true;
            }
        }
        proof {
            let wider = requests(entities@, i + 1);
            let narrower = requests(entities@, i as int);
            if found {
                assert(wider =~= narrower.insert(Entity(i)));
                assert(commands.despawned() =~= old(commands).despawned() + wider);
            } else {
                assert(wider =~= narrower);
            }
        }
        i += 1;
        assert(commands.spawned() =~= old(commands).spawned() + explosions(
            entities@.take(i as int),
        ));
    }
    assert(entities@.take(entities@.len() as int) =~= entities@);
}

/// The frame after `index`; the last index that the machine holds is kept.
pub open spec fn next_frame(index: usize) -> usize {
    if index < usize::MAX {
        (index + 1) as usize
    } else {
        index
    }
}

/// The slot after `delta` microseconds of animation: the timer of an
/// explosion advances, and when it completes a period the explosion shows
/// its next frame. Every other slot stays as it is.
pub open spec fn animated(slot: Option<Bundle>, delta: u64) -> Option<Bundle> {
    match slot {
        Some(b) => match (b.explosion, b.explosion_timer, b.sprite) {
            (Some(_), Some(timer), Some(sprite)) => {
                let ticked = timer.0.ticked(delta);
                Some(
                    Bundle {
                        explosion_timer: Some(ExplosionTimer(ticked)),
                        sprite: Some(
                            TextureAtlasSprite {
                                index: if ticked.finished {
                                    next_frame(sprite.index)
                                } else {
                                    sprite.index
                                },
                            },
                        ),
                        ..b
                    },
                )
            },
            _ => slot,
        },
        None => None,
    }
}

/// Whether the explosion in `slot` ends after `delta` microseconds: its
/// timer completes a period, and the frame that follows is past the last
/// of its `EXPLOSION_LENGTH` frames.
pub open spec fn ends(slot: Option<Bundle>, delta: u64) -> bool {
    match slot {
        Some(b) => match (b.explosion, b.explosion_timer, b.sprite) {
            (Some(_), Some(timer), Some(sprite)) => timer.0.ticked(delta).finished && next_frame(
                sprite.index,
            ) >= EXPLOSION_LENGTH,
            _ => false,
        },
        None => false,
    }
}

/// The slot after `k` ticks of animation, of `delta` microseconds each.
pub open spec fn animated_times(slot: Option<Bundle>, delta: u64, k: nat) -> Option<Bundle>
    decreases k,
{
    if k == 0 {
        slot
    } else {
        animated(animated_times(slot, delta, (k - 1) as nat), delta)
    }
}

/// An explosion plays its frames once: ticked once per frame period, it
/// shows frame `k` after `k` ticks, and it ends with the tick after which
/// it would show the frame past its last, the sixteenth, and with none
/// before.
pub proof fn lemma_explosion_plays_once(position: Vec2, k: nat)
    requires
        k < EXPLOSION_LENGTH,
    ensures
        animated_times(Some(spec_explosion(position)), crate::EXPLOSION_PERIOD, k) == Some(
            Bundle {
                explosion_timer: Some(
                    ExplosionTimer(
                        crate::components::Timer {
                            elapsed: 0,
                            duration: crate::EXPLOSION_PERIOD,
                            finished: k > 0,
                        },
                    ),
                ),
                sprite: Some(TextureAtlasSprite { index: k as usize }),
                ..spec_explosion(position)
            },
        ),
        ends(
            animated_times(Some(spec_explosion(position)), crate::EXPLOSION_PERIOD, k),
            crate::EXPLOSION_PERIOD,
        ) <==> k + 1 == EXPLOSION_LENGTH,
    decreases k,
{
    if k > 0 {
        lemma_explosion_plays_once(position, (k - 1) as nat);
    }
}

/// The slots after `delta` microseconds of animation.
pub open spec fn all_animated(entities: Seq<Option<Bundle>>, delta: u64) -> Seq<Option<Bundle>> {
    Seq::new(entities.len(), |i: int| animated(entities[i], delta))
}

/// Among the first `n` slots, the explosions that end after `delta`
/// microseconds.
pub open spec fn ending(entities: Seq<Option<Bundle>>, delta: u64, n: int) -> Set<Entity> {
    Set::new(|e: Entity| e.0 < n && e.0 < entities.len() && ends(entities[e.0 as int], delta))
}

/// Advances the timer of every explosion by `delta` microseconds. An
/// explosion whose timer completes a period shows its next frame; one that
/// has shown its last frame is removed.
pub fn explosion_animation_system(
    commands: &mut Commands,
    delta: u64,
    entities: &mut Vec<Option<Bundle>>,
)
    requires
        old(commands).wf(),
    ensures
        final(commands).wf(),
        final(commands).spawned() == old(commands).spawned(),
        final(commands).despawned() == old(commands).despawned() + ending(
            old(entities)@,
            delta,
            old(entities)@.len() as int,
        ),
        final(entities)@ == all_animated(old(entities)@, delta),
{
    let mut i: usize = 0;
    assert(commands.despawned() =~= old(commands).despawned() + ending(old(entities)@, delta, 0));
    while i < entities.len()
        invariant
            i <= entities.len(),
            entities@.len() == old(entities)@.len(),
            commands.wf(),
            commands.spawned() == old(commands).spawned(),
            commands.despawned() == old(commands).despawned() + ending(
                old(entities)@,
                delta,
                i as int,
            ),
            forall|j: int| 0 <= j < i ==> entities@[j] == animated(old(entities)@[j], delta),
            forall|j: int| i <= j < entities@.len() ==> entities@[j] == old(entities)@[j],
        decreases entities.len() - i,
    {
        let mut gone = false;
        if let Some(b) = entities[i] {
            if b.explosion.is_some() {
                if let Some(explosion_timer) = b.explosion_timer {
                    if let Some(sprite) = b.sprite {
                        let mut timer = explosion_timer.0;
                        timer.tick(delta);
                        let mut index = sprite.index;
                        if timer.finished() {
                            if index < usize::MAX {
                                index += 1;
                            }
                            if index >= EXPLOSION_LENGTH {
                                commands.despawn(Entity(i));
                                gone = true;
                            }
                        }
                        let mut next = b;
                        next.explosion_timer = Some(ExplosionTimer(timer));
                        next.sprite = Some(TextureAtlasSprite { index });
                        entities[i] = Some(next);
                    }
                }
            }
        }
        proof {
            let slot = old(entities)@[i as int];
            assert(gone == ends(slot, delta));
            let wider = ending(old(entities)@, delta, i + 1);
            let narrower = ending(old(entities)@, delta, i as int);
            if gone {
                assert(wider =~= narrower.insert(Entity(i)));
                assert(commands.despawned() =~= old(commands).despawned() + wider);
            } else {
                assert(wider =~= narrower);
            }
        }
        i += 1;
    }
    assert(entities@ =~= all_animated(old(entities)@, delta));
}

} // verus!
