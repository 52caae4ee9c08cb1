//! The state of a world in the middle of a tick, and what each system makes
//! of it.
//!
//! A [`Frame`] holds the slots, the commands and cues asked for so far, and
//! the counters. Each system is a function from frame to frame; a tick is
//! their composition, followed by the flush of the commands. The counters
//! stay in step with the slots and the commands throughout: that is
//! [`Frame::sound`], which every system keeps.
use vstd::prelude::*;
use crate::collision::damaged;
use crate::collision::destroyed_by_hit;
use crate::collision::kills;
use crate::collision::scored;
use crate::collision::struck;
use crate::collision::wreckage;
use crate::commands::AudioCue;
use crate::commands::Entity;
use crate::components::Bundle;
use crate::enemy::all_orbited;
use crate::enemy::enemy_volley;
use crate::enemy::formation::FormationMaker;
use crate::enemy::spec_enemy_bundle;
use crate::enemy::EnemyDraws;
use crate::enemy::Heading;
use crate::explosion::all_animated;
use crate::explosion::ending;
use crate::explosion::explosions;
use crate::explosion::requests;
use crate::explosion::spec_explosion_request;
use crate::motion::all_moved;
use crate::motion::leaving;
use crate::player::player_lasers;
use crate::player::spec_player_bundle;
use crate::player::steered;
use crate::player::steering;
use crate::query::spec_single_player;
use crate::store::cleared;
use crate::store::count;
use crate::store::filled;
use crate::store::holds;
use crate::store::Craft;
use crate::EnemyCount;
use crate::GameState;
use crate::PlayerState;
use crate::WinSize;
use crate::MAX_ENEMY_COUNT;

verus! {

/// A craft is nothing but a craft: it is no laser, no explosion and no
/// request for one, it is not removed for leaving the screen, and it is not
/// player and enemy at once. The systems remove a craft only by a hit.
pub open spec fn coherent(slot: Option<Bundle>) -> bool {
    match slot {
        Some(b) => (b.player is Some || b.enemy is Some) ==> {
            &&& b.laser is None
            &&& b.explosion is None
            &&& b.explosion_to_spawn is None
            &&& !(b.velocity is Some && b.movable == Some(
                crate::components::Movable { auto_despawn: true },
            ))
            &&& !(b.player is Some && b.enemy is Some)
        },
        None => true,
    }
}

/// The two slots hold entities of the same make: the same components are
/// present, and both are removed off screen or neither is.
pub open spec fn alike(a: Option<Bundle>, b: Option<Bundle>) -> bool {
    match (a, b) {
        (Some(x), Some(y)) => {
            &&& (x.sprite_size is Some) == (y.sprite_size is Some)
            &&& (x.velocity is Some) == (y.velocity is Some)
            &&& x.movable == y.movable
            &&& (x.attributes is Some) == (y.attributes is Some)
            &&& x.formation == y.formation
            &&& x.laser == y.laser
            &&& x.player == y.player
            &&& x.from_player == y.from_player
            &&& x.enemy == y.enemy
            &&& x.from_enemy == y.from_enemy
            &&& x.explosion == y.explosion
            &&& (x.explosion_to_spawn is Some) == (y.explosion_to_spawn is Some)
            &&& (x.explosion_timer is Some) == (y.explosion_timer is Some)
            &&& (x.sprite is Some) == (y.sprite is Some)
        },
        (None, None) => true,
        _ => false,
    }
}

/// The two runs of slots hold entities of the same make, slot by slot.
pub open spec fn same_make(a: Seq<Option<Bundle>>, b: Seq<Option<Bundle>>) -> bool {
    &&& a.len() == b.len()
    &&& forall|i: int| 0 <= i < a.len() ==> alike(#[trigger] a[i], b[i])
}

/// The state of a world in the middle of a tick.
pub struct Frame {
    /// The slots, as they were at the start of the tick but for what the
    /// systems changed in place.
    pub entities: Seq<Option<Bundle>>,
    /// The bundles to spawn at the end of the tick.
    pub spawned: Seq<Bundle>,
    /// The entities to despawn at the end of the tick.
    pub despawned: Set<Entity>,
    /// The audio cues asked for.
    pub played: Seq<AudioCue>,
    pub enemy_count: EnemyCount,
    pub player_state: PlayerState,
    pub game_state: GameState,
    pub formation_maker: FormationMaker,
}

impl Frame {
    /// The frame after the check for a spawn of the player at `now`.
    pub open spec fn player_spawned(self, now: u64, win_size: &WinSize) -> Frame {
        if self.player_state.may_spawn(now) {
            Frame {
                spawned: self.spawned.push(spec_player_bundle(win_size)),
                player_state: PlayerState { on: true, last_shot: None },
                ..self
            }
        } else {
            self
        }
    }

    /// The frame after the check for a spawn of an enemy made of `draws`.
    pub open spec fn enemy_spawned(self, win_size: &WinSize, draws: &EnemyDraws) -> Frame {
        if self.enemy_count.0 < MAX_ENEMY_COUNT {
            let made = self.formation_maker.spec_make_from(win_size, &draws.formation);
            Frame {
                spawned: self.spawned.push(spec_enemy_bundle(draws.x, draws.y, made.1)),
                enemy_count: EnemyCount((self.enemy_count.0 + 1) as u32),
                formation_maker: made.0,
                ..self
            }
        } else {
            self
        }
    }

    /// The frame after a volley of the enemies.
    pub open spec fn enemies_fired(self) -> Frame {
        Frame {
            spawned: self.spawned + enemy_volley(self.entities),
            played: if enemy_volley(self.entities).len() > 0 {
                self.played.push(AudioCue::EnemyLaserFired)
            } else {
                self.played
            },
            ..self
        }
    }

    /// The frame after the player was steered by the keys held.
    pub open spec fn player_steered(self, move_left: bool, move_right: bool) -> Frame {
        Frame {
            entities: match spec_single_player(self.entities) {
                Some(i) => self.entities.update(
                    i,
                    steered(self.entities[i], steering(move_left, move_right)),
                ),
                None => self.entities,
            },
            ..self
        }
    }

    /// The frame after the player fired, if `fire` is set and there is
    /// exactly one player.
    pub open spec fn player_fired(self, fire: bool) -> Frame {
        if fire && spec_single_player(self.entities) is Some {
            let at = self.entities[spec_single_player(
                self.entities,
            ).unwrap()].unwrap().transform.translation;
            Frame {
                spawned: self.spawned + player_lasers(at),
                played: self.played.push(AudioCue::PlayerLaserFired),
                ..self
            }
        } else {
            self
        }
    }

    /// The frame after one tick of motion.
    pub open spec fn moved(self, win_size: &WinSize) -> Frame {
        Frame {
            entities: all_moved(self.entities),
            despawned: self.despawned + leaving(
                self.entities,
                win_size,
                self.entities.len() as int,
            ),
            ..self
        }
    }

    /// The frame after the enemies stepped along their orbits.
    pub open spec fn orbited(self, headings: Seq<Heading>) -> Frame {
        Frame { entities: all_orbited(self.entities, headings), ..self }
    }

    /// The frame after the lasers of the player hit the enemies.
    pub open spec fn enemies_hit(self) -> Frame {
        let tally = kills(self.entities, self.despawned);
        Frame {
            spawned: self.spawned + wreckage(self.entities, tally.killed),
            despawned: tally.destroyed,
            played: self.played + Seq::new(tally.killed.len(), |k: int| AudioCue::EnemyExploded),
            enemy_count: EnemyCount((self.enemy_count.0 - tally.killed.len()) as u32),
            game_state: GameState { score: scored(self.game_state.score, tally.killed.len()) },
            ..self
        }
    }

    /// The frame after a laser of an enemy hit the player at `now`, if one
    /// did.
    pub open spec fn player_hit(self, now: u64) -> Frame {
        match struck(self.entities) {
            Some((p, l)) => {
                let player = self.entities[p].unwrap();
                let entities = self.entities.update(p, Some(damaged(player)));
                if destroyed_by_hit(player) {
                    Frame {
                        entities,
                        spawned: self.spawned.push(
                            spec_explosion_request(player.transform.translation),
                        ),
                        despawned: self.despawned.insert(Entity(l as usize)).insert(
                            Entity(p as usize),
                        ),
                        played: self.played.push(AudioCue::PlayerExploded),
                        player_state: PlayerState { on: false, last_shot: Some(now) },
                        ..self
                    }
                } else {
                    Frame {
                        entities,
                        despawned: self.despawned.insert(Entity(l as usize)),
                        played: self.played.push(AudioCue::PlayerHit),
                        ..self
                    }
                }
            },
            None => self,
        }
    }

    /// The frame after the requests for explosions were served.
    pub open spec fn explosions_spawned(self) -> Frame {
        Frame {
            spawned: self.spawned + explosions(self.entities),
            despawned: self.despawned + requests(self.entities, self.entities.len() as int),
            ..self
        }
    }

    /// The frame after `delta` microseconds of animation.
    pub open spec fn animated(self, delta: u64) -> Frame {
        Frame {
            entities: all_animated(self.entities, delta),
            despawned: self.despawned + ending(
                self.entities,
                delta,
                self.entities.len() as int,
            ),
            ..self
        }
    }

    /// The number of craft of a kind that are alive: those in the slots
    /// that are not to be despawned, and those to be spawned.
    pub open spec fn alive(self, craft: Craft) -> nat {
        count(cleared(self.entities, self.despawned), craft) + count(filled(self.spawned), craft)
    }

    /// The counters are in step with the slots and the commands: the count
    /// of enemies is the number of enemies alive, and no more than
    /// `MAX_ENEMY_COUNT`; one player is alive if the state of the player
    /// says so, else none; and every craft is nothing but a craft.
    pub open spec fn sound(self) -> bool {
        &&& self.entities.len() <= usize::MAX
        &&& forall|i: int| 0 <= i < self.entities.len() ==> coherent(#[trigger] self.entities[i])
        &&& forall|k: int| 0 <= k < self.spawned.len() ==> coherent(Some(#[trigger] self.spawned[k]))
        &&& self.enemy_count.0 == self.alive(Craft::Enemy)
        &&& self.enemy_count.0 <= MAX_ENEMY_COUNT
        &&& self.alive(Craft::Player) == if self.player_state.on {
            1nat
        } else {
            0nat
        }
    }

    /// No player is queued for despawn.
    pub open spec fn player_untouched(self) -> bool {
        forall|i: int|
            0 <= i < self.entities.len() && holds(#[trigger] self.entities[i], Craft::Player)
                ==> !self.despawned.contains(Entity(i as usize))
    }
}

} // verus!
