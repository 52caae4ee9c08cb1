//! The world: the slots of the entities and the counters of the game, and
//! the tick that runs every system in turn.
use vstd::prelude::*;
use crate::collision::enemy_laser_hit_player_system;
use crate::collision::player_laser_hit_enemy_system;
use crate::commands::Audio;
use crate::commands::AudioCue;
use crate::commands::Commands;
use crate::commands::Entity;
use crate::components::Bundle;
use crate::components::Timer;
use crate::enemy::enemy_fire_criteria;
use crate::enemy::enemy_fire_system;
use crate::enemy::enemy_headings;
use crate::enemy::follow_headings;
use crate::enemy::formation::FormationMaker;
use crate::enemy::phase_of;
use crate::enemy::playable;
use crate::enemy::spawn_enemy;
use crate::enemy::EnemyDraws;
use crate::enemy::Heading;
use crate::enemy::ENEMY_SPAWN_MARGIN;
use crate::explosion::explosion_animation_system;
use crate::explosion::explosion_to_spawn_system;
use crate::frame::coherent;
use crate::frame::Frame;
use crate::main_keyboard_input_system;
use crate::motion::movable_system;
use crate::player::player_fire_system;
use crate::player::player_keyboard_event_system;
use crate::player::player_spawn_system;
use crate::random::RandomSource;
use crate::soundness::inert;
use crate::store::cleared;
use crate::store::count;
use crate::store::filled;
use crate::store::flush;
use crate::store::flushed;
use crate::store::Craft;
use crate::AppState;
use crate::EnemyCount;
use crate::GameState;
use crate::Input;
use crate::PlayerState;
use crate::WinSize;
use crate::MAX_ENEMY_COUNT;

verus! {

/// Time between two checks for a spawn of the player, in microseconds.
pub const PLAYER_SPAWN_PERIOD: u64 = 500_000;

/// Time between two checks for a spawn of an enemy, in microseconds.
pub const ENEMY_SPAWN_PERIOD: u64 = 1_000_000;

/// The random choices of one tick.
#[derive(Clone, Copy, Debug, PartialEq, Eq)]
pub struct TickDraws {
    /// Whether the enemies fire.
    pub enemy_fire: bool,
    /// What an enemy is made of, if one is spawned.
    pub enemy: EnemyDraws,
}

impl Default for TickDraws {
    /// The draws of a tick in which nothing is drawn.
    fn default() -> (draws: Self)
        ensures
            draws == (TickDraws {
                enemy_fire: false,
                enemy: EnemyDraws {
                    x: 0,
                    y: 0,
                    formation: crate::enemy::formation::FormationDraws {
                        right_edge: false,
                        start_y: 0,
                        pivot_x: 0,
                        pivot_y: 0,
                        radius_x: 0,
                    },
                },
            }),
    {
        TickDraws { enemy_fire: false, enemy: EnemyDraws::default() }
    }
}

/// What a world holds, as mathematical values.
pub struct State {
    pub entities: Seq<Option<Bundle>>,
    pub win_size: WinSize,
    pub enemy_count: EnemyCount,
    pub player_state: PlayerState,
    pub game_state: GameState,
    pub app_state: AppState,
    pub formation_maker: FormationMaker,
    pub player_spawn_timer: Timer,
    pub enemy_spawn_timer: Timer,
}

impl State {
    /// The world before its first tick: no entity, no score, the game
    /// running.
    pub open spec fn initial(win_size: WinSize) -> State {
        State {
            entities: Seq::empty(),
            win_size,
            enemy_count: EnemyCount(0),
            player_state: PlayerState { on: false, last_shot: None },
            game_state: GameState { score: 0 },
            app_state: AppState::InGame,
            formation_maker: FormationMaker { current_template: None, current_members: 0 },
            player_spawn_timer: Timer::spec_from_micros(PLAYER_SPAWN_PERIOD),
            enemy_spawn_timer: Timer::spec_from_micros(ENEMY_SPAWN_PERIOD),
        }
    }

    /// The counters are in step with the slots: the count of enemies is the
    /// number of enemies, and no more than `MAX_ENEMY_COUNT`; there is one
    /// player if the state of the player says that it is alive, else none;
    /// every craft is nothing but a craft; and the play area has room for
    /// enemies to spawn in.
    pub open spec fn wf(self) -> bool {
        &&& playable(&self.win_size)
        &&& forall|i: int| 0 <= i < self.entities.len() ==> coherent(#[trigger] self.entities[i])
        &&& self.enemy_count.0 == count(self.entities, Craft::Enemy)
        &&& self.enemy_count.0 <= MAX_ENEMY_COUNT
        &&& count(self.entities, Craft::Player) == if self.player_state.on {
            1nat
        } else {
            0nat
        }
    }

    /// Whether an enemy is spawned in a tick that comes `delta` microseconds
    /// after the last: the game runs, the spawn check is due, and fewer
    /// than `MAX_ENEMY_COUNT` enemies are alive.
    pub open spec fn spawns_enemy(self, delta: u64) -> bool {
        &&& self.app_state == AppState::InGame
        &&& self.enemy_spawn_timer.ticked(delta).finished
        &&& self.enemy_count.0 < MAX_ENEMY_COUNT
    }

    /// The frame at the start of a tick: nothing is asked for yet.
    pub open spec fn frame(self) -> Frame {
        Frame {
            entities: self.entities,
            spawned: Seq::empty(),
            despawned: Set::empty(),
            played: Seq::empty(),
            enemy_count: self.enemy_count,
            player_state: self.player_state,
            game_state: self.game_state,
            formation_maker: self.formation_maker,
        }
    }

    /// The frame after the spawn checks that are due `delta` microseconds
    /// after the last tick, and the volley of the enemies if they fire.
    pub open spec fn spawned(self, now: u64, delta: u64, draws: TickDraws) -> Frame {
        let f = self.frame();
        let f = if self.player_spawn_timer.ticked(delta).finished {
            f.player_spawned(now, &self.win_size)
        } else {
            f
        };
        let f = if self.enemy_spawn_timer.ticked(delta).finished {
            f.enemy_spawned(&self.win_size, &draws.enemy)
        } else {
            f
        };
        if draws.enemy_fire {
            f.enemies_fired()
        } else {
            f
        }
    }

    /// The frame after everything has spawned, fired and moved: the spawn
    /// checks and the volley, then steering and fire of the player, then
    /// motion, then the steps of the enemies along their orbits.
    pub open spec fn approached(
        self,
        input: Input,
        now: u64,
        delta: u64,
        draws: TickDraws,
        headings: Seq<Heading>,
    ) -> Frame {
        self.spawned(now, delta, draws).player_steered(
            input.move_left,
            input.move_right,
        ).player_fired(input.fire).moved(&self.win_size).orbited(headings)
    }

    /// The frame at the end of a tick of a running game, before its
    /// commands are applied: after everything has moved come the hits on
    /// enemies, the hit on the player, the explosions and their animation.
    pub open spec fn simulated(
        self,
        input: Input,
        now: u64,
        delta: u64,
        draws: TickDraws,
        headings: Seq<Heading>,
    ) -> Frame {
        self.approached(input, now, delta, draws, headings).enemies_hit().player_hit(
            now,
        ).explosions_spawned().animated(delta)
    }

    /// The world after one tick. While the game is not running, nothing
    /// moves and no timer advances; the pause key is heeded at the end of
    /// every tick.
    pub open spec fn stepped(
        self,
        input: Input,
        now: u64,
        delta: u64,
        draws: TickDraws,
        headings: Seq<Heading>,
    ) -> State {
        let app_state = self.app_state.toggled(input.toggle_pause);
        if self.app_state == AppState::InGame {
            let f = self.simulated(input, now, delta, draws, headings);
            State {
                entities: flushed(f.entities, f.spawned, f.despawned),
                win_size: self.win_size,
                enemy_count: f.enemy_count,
                player_state: f.player_state,
                game_state: f.game_state,
                app_state,
                formation_maker: f.formation_maker,
                player_spawn_timer: self.player_spawn_timer.ticked(delta),
                enemy_spawn_timer: self.enemy_spawn_timer.ticked(delta),
            }
        } else {
            State { app_state, ..self }
        }
    }

    /// The audio cues of one tick.
    pub open spec fn cues(
        self,
        input: Input,
        now: u64,
        delta: u64,
        draws: TickDraws,
        headings: Seq<Heading>,
    ) -> Seq<AudioCue> {
        if self.app_state == AppState::InGame {
            self.simulated(input, now, delta, draws, headings).played
        } else {
            Seq::empty()
        }
    }

    /// The world before its first tick is well-formed, where enemies can
    /// spawn in its play area.
    pub proof fn lemma_initial_wf(win_size: WinSize)
        requires
            playable(&win_size),
        ensures
            State::initial(win_size).wf(),
    {
    }

    /// No system changes the make of an entity in place: until the
    /// commands of the tick are applied, every slot holds what it held, but
    /// for where it is, how it moves and how it fares. In particular an
    /// enemy keeps the formation that it was given.
    pub proof fn lemma_make_kept(
        self,
        input: Input,
        now: u64,
        delta: u64,
        draws: TickDraws,
        headings: Seq<Heading>,
    )
        ensures
            crate::frame::same_make(
                self.entities,
                self.simulated(input, now, delta, draws, headings).entities,
            ),
    {
        let a = self.spawned(now, delta, draws);
        assert(a.entities == self.entities);
        crate::soundness::lemma_moves_keep_make(a, input, &self.win_size, headings);
        let b = self.approached(input, now, delta, draws, headings);
        crate::soundness::lemma_hits_keep_make(b, now, delta);
        crate::soundness::lemma_same_make_chain(
            self.entities,
            b.entities,
            self.simulated(input, now, delta, draws, headings).entities,
        );
    }

    /// The score never goes down.
    pub proof fn lemma_score_never_falls(
        self,
        input: Input,
        now: u64,
        delta: u64,
        draws: TickDraws,
        headings: Seq<Heading>,
    )
        ensures
            self.stepped(input, now, delta, draws, headings).game_state.score
                >= self.game_state.score,
    {
        let f = self.approached(input, now, delta, draws, headings);
        assert(f.game_state == self.game_state);
        let kills = crate::collision::kills(f.entities, f.despawned).killed.len();
        assert(crate::collision::KILL_SCORE * kills >= 0) by (nonlinear_arith);
    }

    /// The frame at the start of a tick of a well-formed world is sound.
    pub proof fn lemma_frame_sound(self)
        requires
            self.wf(),
            self.entities.len() <= usize::MAX,
        ensures
            self.frame().sound(),
            self.frame().player_untouched(),
    {
        let f = self.frame();
        assert(cleared(f.entities, f.despawned) =~= self.entities);
        assert(filled(f.spawned) =~= Seq::<Option<Bundle>>::empty());
    }

    /// The frame of a well-formed world is sound once everything has
    /// moved, and no player is queued for despawn by then.
    pub proof fn lemma_approached_sound(
        self,
        input: Input,
        now: u64,
        delta: u64,
        draws: TickDraws,
        headings: Seq<Heading>,
    )
        requires
            self.wf(),
            self.entities.len() <= usize::MAX,
        ensures
            self.approached(input, now, delta, draws, headings).sound(),
            self.approached(input, now, delta, draws, headings).player_untouched(),
    {
        self.lemma_frame_sound();
        let f = self.frame();
        crate::soundness::lemma_player_spawned(f, now, &self.win_size);
        let f = if self.player_spawn_timer.ticked(delta).finished {
            f.player_spawned(now, &self.win_size)
        } else {
            f
        };
        crate::soundness::lemma_enemy_spawned(f, &self.win_size, &draws.enemy);
        let f = if self.enemy_spawn_timer.ticked(delta).finished {
            f.enemy_spawned(&self.win_size, &draws.enemy)
        } else {
            f
        };
        crate::soundness::lemma_enemies_fired(f);
        let f = self.spawned(now, delta, draws);
        crate::soundness::lemma_player_steered(f, input.move_left, input.move_right);
        let f = f.player_steered(input.move_left, input.move_right);
        crate::soundness::lemma_player_fired(f, input.fire);
        let f = f.player_fired(input.fire);
        crate::soundness::lemma_moved(f, &self.win_size);
        let f = f.moved(&self.win_size);
        crate::soundness::lemma_orbited(f, headings);
    }

    /// The frame of a well-formed world is sound at the end of a tick.
    pub proof fn lemma_simulated_sound(
        self,
        input: Input,
        now: u64,
        delta: u64,
        draws: TickDraws,
        headings: Seq<Heading>,
    )
        requires
            self.wf(),
            self.entities.len() <= usize::MAX,
        ensures
            self.simulated(input, now, delta, draws, headings).sound(),
    {
        self.lemma_approached_sound(input, now, delta, draws, headings);
        let f = self.approached(input, now, delta, draws, headings);
        crate::soundness::lemma_enemies_hit(f);
        let f = f.enemies_hit();
        crate::soundness::lemma_player_hit(f, now);
        let f = f.player_hit(now);
        crate::soundness::lemma_explosions_spawned(f);
        let f = f.explosions_spawned();
        crate::soundness::lemma_animated(f, delta);
    }

    /// A tick keeps a world well-formed: the count of enemies stays the
    /// number of enemies and never exceeds `MAX_ENEMY_COUNT`, and there is
    /// never more than one player.
    pub proof fn lemma_stepped_wf(
        self,
        input: Input,
        now: u64,
        delta: u64,
        draws: TickDraws,
        headings: Seq<Heading>,
    )
        requires
            self.wf(),
            self.entities.len() <= usize::MAX,
        ensures
            self.stepped(input, now, delta, draws, headings).wf(),
    {
        if self.app_state == AppState::InGame {
            self.lemma_simulated_sound(input, now, delta, draws, headings);
            crate::soundness::lemma_flushed(self.simulated(input, now, delta, draws, headings));
        }
    }
}

/// A world of the game.
pub struct World {
    entities: Vec<Option<Bundle>>,
    win_size: WinSize,
    enemy_count: EnemyCount,
    player_state: PlayerState,
    game_state: GameState,
    app_state: AppState,
    formation_maker: FormationMaker,
    player_spawn_timer: Timer,
    enemy_spawn_timer: Timer,
    rng: RandomSource,
}

impl View for World {
    type V = State;

    closed spec fn view(&self) -> State {
        State {
            entities: self.entities@,
            win_size: self.win_size,
            enemy_count: self.enemy_count,
            player_state: self.player_state,
            game_state: self.game_state,
            app_state: self.app_state,
            formation_maker: self.formation_maker,
            player_spawn_timer: self.player_spawn_timer,
            enemy_spawn_timer: self.enemy_spawn_timer,
        }
    }
}

impl World {
    /// The counters of the world are in step with its slots.
    pub open spec fn wf(&self) -> bool {
        self@.wf()
    }

    /// The frame that the world, the commands and the cues make up.
    spec fn frame_with(&self, commands: &Commands, audio: &Audio) -> Frame {
        Frame {
            entities: self.entities@,
            spawned: commands.spawned(),
            despawned: commands.despawned(),
            played: audio.played(),
            enemy_count: self.enemy_count,
            player_state: self.player_state,
            game_state: self.game_state,
            formation_maker: self.formation_maker,
        }
    }

    /// Tells whether enemies can spawn in a play area of `win_size`: it is
    /// wider and higher than the margins in which none is spawned.
    pub fn is_playable(win_size: &WinSize) -> (ok: bool)
        ensures
            ok == playable(win_size),
    {
        win_size.width / 2 > ENEMY_SPAWN_MARGIN && win_size.height / 2 > ENEMY_SPAWN_MARGIN
    }

    /// A world without entities, whose random draws follow from `seed`.
    /// There is none for a play area in which no enemy can spawn.
    pub fn new(win_size: WinSize, seed: u64) -> (world: Option<World>)
        ensures
            world is Some <==> playable(&win_size),
            world matches Some(w) ==> w.wf() && w@ == State::initial(win_size),
    {
        if !Self::is_playable(&win_size) {
            return None;
        }
        let world = World {
            entities: Vec::new(),
            win_size,
            enemy_count: EnemyCount(0),
            player_state: PlayerState::default(),
            game_state: GameState::default(),
            app_state: AppState::InGame,
            formation_maker: FormationMaker::default(),
            player_spawn_timer: Timer::from_micros(PLAYER_SPAWN_PERIOD),
            enemy_spawn_timer: Timer::from_micros(ENEMY_SPAWN_PERIOD),
            rng: RandomSource::from_seed(seed),
        };
        assert(world@.entities =~= Seq::<Option<Bundle>>::empty());
        Some(world)
    }

    /// The slots of the world: slot `i` holds the bundle of `Entity(i)`.
    pub fn entities(&self) -> (slots: &Vec<Option<Bundle>>)
        ensures
            slots@ == self@.entities,
    {
        &self.entities
    }

    /// The bundle of `entity`, if it is alive.
    pub fn get(&self, entity: Entity) -> (bundle: Option<Bundle>)
        ensures
            bundle == if entity.0 < self@.entities.len() {
                self@.entities[entity.0 as int]
            } else {
                None
            },
    {
        if entity.0 < self.entities.len() {
            self.entities[entity.0]
        } else {
            None
        }
    }

    pub fn win_size(&self) -> (w: WinSize)
        ensures
            w == self@.win_size,
    {
        self.win_size
    }

    /// The number of enemies alive.
    pub fn enemy_count(&self) -> (n: u32)
        ensures
            n == self@.enemy_count.0,
    {
        self.enemy_count.0
    }

    pub fn player_state(&self) -> (p: PlayerState)
        ensures
            p == self@.player_state,
    {
        self.player_state
    }

    pub fn game_state(&self) -> (g: GameState)
        ensures
            g == self@.game_state,
    {
        self.game_state
    }

    pub fn app_state(&self) -> (a: AppState)
        ensures
            a == self@.app_state,
    {
        self.app_state
    }

    /// The health of the player, where there is exactly one player.
    pub fn player_health(&self) -> (health: Option<i32>)
        ensures
            health == match crate::query::spec_single_player(self@.entities) {
                Some(i) => match self@.entities[i].unwrap().attributes {
                    Some(a) => Some(a.health),
                    None => None,
                },
                None => None,
            },
    {
        match crate::query::single_player(&self.entities) {
            Some(i) => match self.entities[i].unwrap().attributes {
                Some(a) => Some(a.health),
                None => None,
            },
            None => None,
        }
    }

    pub fn formation_maker(&self) -> (m: FormationMaker)
        ensures
            m == self@.formation_maker,
    {
        self.formation_maker
    }

    /// Puts an entity that is no craft into the world at once: into the
    /// first empty slot, or a new one. A craft is not taken: craft come by
    /// the spawn systems alone, which count them.
    pub fn insert(&mut self, bundle: Bundle) -> (entity: Option<Entity>)
        requires
            old(self).wf(),
        ensures
            final(self).wf(),
            !inert(bundle) ==> entity is None && final(self)@ == old(self)@,
            inert(bundle) ==> {
                &&& entity matches Some(e)
                &&& final(self)@ == (State {
                    entities: crate::store::placed(old(self)@.entities, bundle),
                    ..old(self)@
                })
                &&& e.0 < final(self)@.entities.len()
                &&& final(self)@.entities[e.0 as int] == Some(bundle)
            },
    {
        if bundle.player.is_some() || bundle.enemy.is_some() {
            return None;
        }
        proof {
            crate::store::lemma_count_placed(self.entities@, bundle, Craft::Enemy);
            crate::store::lemma_count_placed(self.entities@, bundle, Craft::Player);
            crate::store::lemma_free_slot(self.entities@, 0);
        }
        let entity = crate::store::place(&mut self.entities, bundle);
        Some(entity)
    }

    /// The world but for its slots, which the systems of a tick do not
    /// touch before the end of the tick.
    spec fn settings(&self) -> (WinSize, AppState, Timer, Timer) {
        (self.win_size, self.app_state, self.player_spawn_timer, self.enemy_spawn_timer)
    }

    /// Advances the spawn timers, and runs what spawns and fires by itself.
    fn run_spawns(
        &mut self,
        commands: &mut Commands,
        audio: &mut Audio,
        now: u64,
        delta: u64,
        draws: &TickDraws,
    )
        requires
            old(commands).wf(),
            old(self).frame_with(old(commands), old(audio)) == old(self)@.frame(),
        ensures
            final(commands).wf(),
            final(self).frame_with(final(commands), final(audio)) == old(self)@.spawned(
                now,
                delta,
                *draws,
            ),
            final(self).settings() == (
                old(self).win_size,
                old(self).app_state,
                old(self).player_spawn_timer.ticked(delta),
                old(self).enemy_spawn_timer.ticked(delta),
            ),
    {
        let win_size = self.win_size;
        let ghost start = self@;
        let ghost f = start.frame();
        self.player_spawn_timer.tick(delta);
        if self.player_spawn_timer.finished() {
            player_spawn_system(commands, &mut self.player_state, now, &win_size);
        }
        let ghost f = if start.player_spawn_timer.ticked(delta).finished {
            f.player_spawned(now, &win_size)
        } else {
            f
        };
        assert(commands.despawned() == f.despawned);
        assert(self.frame_with(commands, audio) == f);
        self.enemy_spawn_timer.tick(delta);
        if self.enemy_spawn_timer.finished() {
            spawn_enemy(
                commands,
                &mut self.enemy_count,
                &mut self.formation_maker,
                &win_size,
                &draws.enemy,
            );
        }
        let ghost f = if start.enemy_spawn_timer.ticked(delta).finished {
            f.enemy_spawned(&win_size, &draws.enemy)
        } else {
            f
        };
        assert(commands.despawned() == f.despawned);
        assert(self.frame_with(commands, audio) == f);
        if draws.enemy_fire {
            enemy_fire_system(commands, audio, &self.entities);
        }
        assert(commands.despawned() == f.despawned);
    }

    /// Runs what the player asks for, then what moves.
    fn run_moves(
        &mut self,
        commands: &mut Commands,
        audio: &mut Audio,
        input: &Input,
        headings: &Vec<Heading>,
    )
        requires
            old(commands).wf(),
        ensures
            final(commands).wf(),
            final(self).frame_with(final(commands), final(audio)) == old(self).frame_with(
                old(commands),
                old(audio),
            ).player_steered(input.move_left, input.move_right).player_fired(input.fire).moved(
                &old(self).win_size,
            ).orbited(headings@),
            final(self).settings() == old(self).settings(),
    {
        let win_size = self.win_size;
        let ghost f = self.frame_with(commands, audio);
        player_keyboard_event_system(input.move_left, input.move_right, &mut self.entities);
        let ghost f = f.player_steered(input.move_left, input.move_right);
        assert(self.frame_with(commands, audio) == f);
        player_fire_system(commands, audio, input.fire, &self.entities);
        assert(commands.despawned() == f.despawned);
        let ghost f = f.player_fired(input.fire);
        assert(self.frame_with(commands, audio) == f);
        movable_system(commands, &win_size, &mut self.entities);
        let ghost f = f.moved(&win_size);
        assert(self.frame_with(commands, audio) == f);
        follow_headings(&mut self.entities, headings);
    }

    /// Runs the hits of lasers on craft.
    fn run_hits(&mut self, commands: &mut Commands, audio: &mut Audio, now: u64)
        requires
            old(commands).wf(),
            old(self).frame_with(old(commands), old(audio)).sound(),
        ensures
            final(commands).wf(),
            final(self).frame_with(final(commands), final(audio)) == old(self).frame_with(
                old(commands),
                old(audio),
            ).enemies_hit().player_hit(now),
            final(self).settings() == old(self).settings(),
    {
        let ghost f = self.frame_with(commands, audio);
        proof {
            crate::soundness::lemma_kills_bounded(f);
        }
        player_laser_hit_enemy_system(
            commands,
            &mut self.enemy_count,
            &self.entities,
            &mut self.game_state,
            audio,
        );
        let ghost f = f.enemies_hit();
        assert(self.frame_with(commands, audio) == f);
        enemy_laser_hit_player_system(
            commands,
            &mut self.player_state,
            now,
            &mut self.entities,
            audio,
        );
    }

    /// Runs what makes and animates explosions.
    fn run_explosions(&mut self, commands: &mut Commands, audio: &Audio, delta: u64)
        requires
            old(commands).wf(),
        ensures
            final(commands).wf(),
            final(self).frame_with(final(commands), audio) == old(self).frame_with(
                old(commands),
                audio,
            ).explosions_spawned().animated(delta),
            final(self).settings() == old(self).settings(),
    {
        let ghost f = self.frame_with(commands, audio);
        explosion_to_spawn_system(commands, &self.entities);
        let ghost f = f.explosions_spawned();
        assert(self.frame_with(commands, audio) == f);
        explosion_animation_system(commands, delta, &mut self.entities);
    }

    /// Runs one tick with the random choices `draws` and, for the enemy in
    /// each slot, the heading in `headings`.
    ///
    /// While the game runs, `delta` microseconds are added to the timers,
    /// every system has its turn, and the commands are applied. The pause
    /// key is heeded at the end. The cues asked for are returned.
    pub fn step(
        &mut self,
        input: &Input,
        now: u64,
        delta: u64,
        draws: &TickDraws,
        headings: &Vec<Heading>,
    ) -> (cues: Vec<AudioCue>)
        requires
            old(self).wf(),
        ensures
            final(self).wf(),
            final(self)@ == old(self)@.stepped(*input, now, delta, *draws, headings@),
            cues@ == old(self)@.cues(*input, now, delta, *draws, headings@),
    {
        let mut audio = Audio::new();
        let ghost start = self@;
        proof {
            assert(start.entities.len() == self.entities.len());
            start.lemma_stepped_wf(*input, now, delta, *draws, headings@);
        }
        if let AppState::InGame = self.app_state {
            let mut commands = Commands::new();
            self.run_spawns(&mut commands, &mut audio, now, delta, draws);
            self.run_moves(&mut commands, &mut audio, input, headings);
            proof {
                start.lemma_approached_sound(*input, now, delta, *draws, headings@);
            }
            self.run_hits(&mut commands, &mut audio, now);
            self.run_explosions(&mut commands, &audio, delta);
            assert(self.frame_with(&commands, &audio) == start.simulated(
                *input,
                now,
                delta,
                *draws,
                headings@,
            ));
            flush(&mut self.entities, &commands);
        }
        main_keyboard_input_system(&mut self.app_state, input.toggle_pause);
        assert(self@ == start.stepped(*input, now, delta, *draws, headings@));
        audio.into_cues()
    }

    /// Runs one tick: draws the random choices of the tick, asks `trig` for
    /// the heading of every enemy at `now`, and runs the tick with them.
    /// While the game does not run, nothing is drawn and nothing is asked.
    ///
    /// `trig` is handed the orbit phase of an enemy, in thousandths, and is
    /// to return cosine and sine of the phase divided by pi, in millionths.
    pub fn tick<F: Fn(i32) -> Heading>(
        &mut self,
        input: &Input,
        now: u64,
        delta: u64,
        trig: &F,
    ) -> (cues: Vec<AudioCue>)
        requires
            old(self).wf(),
            forall|phase: i32| trig.requires((phase,)),
        ensures
            final(self).wf(),
            exists|draws: TickDraws, headings: Seq<Heading>|
                {
                    &&& old(self)@.spawns_enemy(delta) ==> draws.enemy.fits(&old(self)@.win_size)
                    &&& old(self)@.app_state == AppState::InGame ==> {
                        &&& headings.len() == old(self)@.entities.len()
                        &&& forall|i: int|
                            0 <= i < old(self)@.entities.len() && phase_of(
                                #[trigger] old(self)@.entities[i],
                                now,
                            ) is Some ==> trig.ensures(
                                (phase_of(old(self)@.entities[i], now).unwrap() as i32,),
                                headings[i],
                            )
                    }
                    &&& final(self)@ == #[trigger] old(self)@.stepped(
                        *input,
                        now,
                        delta,
                        draws,
                        headings,
                    )
                    &&& cues@ == old(self)@.cues(*input, now, delta, draws, headings)
                },
    {
        let win_size = self.win_size;
        let mut draws = TickDraws::default();
        let mut headings: Vec<Heading> = Vec::new();
        if let AppState::InGame = self.app_state {
            draws.enemy_fire = enemy_fire_criteria(&mut self.rng);
            let mut timer = self.enemy_spawn_timer;
            timer.tick(delta);
            if timer.finished() && self.enemy_count.0 < MAX_ENEMY_COUNT {
                draws.enemy = EnemyDraws::draw(&win_size, &mut self.rng);
            }
            headings = enemy_headings(now, &self.entities, trig);
        }
        self.step(input, now, delta, &draws, &headings)
    }
}

} // verus!
