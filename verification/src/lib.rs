//! The simulation core of a fixed-timestep arcade shooter: motion, enemy
//! formations, spawn and fire throttling, collisions, damage, explosions,
//! and the life cycles of the player and of the game.
//!
//! Lengths are fixed-point integers (see [`fixed`]); times are whole
//! microseconds.
use vstd::prelude::*;

pub mod collision;
pub mod commands;
pub mod components;
pub mod enemy;
pub mod explosion;
pub mod fixed;
pub mod frame;
pub mod motion;
pub mod player;
pub mod query;
pub mod random;
pub mod soundness;
pub mod store;
pub mod world;

verus! {

/// Scale factor of every craft and laser sprite: one half.
pub const SPRITE_SCALE: i32 = 500;

/// Size of the player's sprite.
pub const PLAYER_SIZE: (i32, i32) = (144_000, 75_000);

/// Size of the sprite of a laser of the player.
pub const PLAYER_LASER_SIZE: (i32, i32) = (9_000, 54_000);

/// Size of an enemy's sprite.
pub const ENEMY_SIZE: (i32, i32) = (144_000, 75_000);

/// Size of the sprite of a laser of an enemy.
pub const ENEMY_LASER_SIZE: (i32, i32) = (17_000, 55_000);

/// Number of frames of an explosion.
pub const EXPLOSION_LENGTH: usize = 16;

/// Time that one frame of an explosion is shown, in microseconds.
pub const EXPLOSION_PERIOD: u64 = 50_000;

/// Simulation steps per second.
pub const TICKS_PER_SECOND: i32 = 60;

/// Distance covered per second at full speed, in thousandths of a unit.
pub const BASE_SPEED: i32 = 500_000;

/// Time between the death of the player and the next spawn, in microseconds.
pub const PLAYER_RESPAWN_DELAY: u64 = 2_000_000;

/// Largest number of enemies alive at once.
pub const MAX_ENEMY_COUNT: u32 = 10;

/// Number of enemies that share one formation.
pub const FORMATION_MEMBERS_MAX: u32 = 2;

/// Width and height of the play area, in thousandths of a unit. The origin
/// is at its centre.
#[derive(Clone, Copy, Debug, PartialEq, Eq)]
pub struct WinSize {
    pub width: i32,
    pub height: i32,
}

/// The signals of one tick: which keys are held, and which were pressed.
#[derive(Clone, Copy, Debug, PartialEq, Eq)]
pub struct Input {
    /// The key that moves the player to the left is held.
    pub move_left: bool,
    /// The key that moves the player to the right is held.
    pub move_right: bool,
    /// The key that fires was pressed in this tick.
    pub fire: bool,
    /// The key that pauses and resumes was pressed in this tick.
    pub toggle_pause: bool,
}

/// Number of enemy craft that are alive.
#[derive(Clone, Copy, Debug, PartialEq, Eq)]
pub struct EnemyCount(pub u32);

/// Whether the simulation runs.
#[derive(Clone, Copy, Debug, PartialEq, Eq, Hash)]
pub enum AppState {
    MainMenu,
    InGame,
    Paused,
}

impl AppState {
    /// The state after the pause key: it pauses a running game and resumes
    /// a paused one. The main menu has no way out.
    pub open spec fn toggled(self, toggle_pause: bool) -> AppState {
        if toggle_pause {
            match self {
                AppState::MainMenu => AppState::MainMenu,
                AppState::InGame => AppState::Paused,
                AppState::Paused => AppState::InGame,
            }
        } else {
            self
        }
    }
}

/// Pauses or resumes the game when the pause key was pressed.
pub fn main_keyboard_input_system(app_state: &mut AppState, toggle_pause: bool)
    ensures
        *final(app_state) == old(app_state).toggled(toggle_pause),
{
    if toggle_pause {
        match app_state {
            AppState::MainMenu => {},
            AppState::InGame => {
                *app_state = AppState::Paused;
            },
            AppState::Paused => {
                *app_state = AppState::InGame;
            },
        }
    }
}

/// The score of the game. It never decreases.
#[derive(Clone, Copy, Debug, PartialEq, Eq)]
pub struct GameState {
    pub score: u32,
}

impl Default for GameState {
    fn default() -> (g: Self)
        ensures
            g.score == 0,
    {
        GameState { score: 0 }
    }
}

/// Life cycle of the player: alive or not, and when it last died.
#[derive(Clone, Copy, Debug, PartialEq, Eq)]
pub struct PlayerState {
    /// Whether the player is alive.
    pub on: bool,
    /// The time of the last death, in microseconds, if the player has died
    /// since it last spawned.
    pub last_shot: Option<u64>,
}

impl Default for PlayerState {
    fn default() -> (p: Self)
        ensures
            p == (PlayerState { on: false, last_shot: None }),
    {
        PlayerState { on: false, last_shot: None }
    }
}

impl PlayerState {
    pub open spec fn alive(&self) -> bool {
        self.on
    }

    /// Whether a player may be spawned at `now`: there is none alive, and
    /// either none has died yet or the respawn delay has passed since the
    /// last death.
    pub open spec fn may_spawn(&self, now: u64) -> bool {
        !self.on && match self.last_shot {
            None => true,
            Some(t) => now >= t + PLAYER_RESPAWN_DELAY,
        }
    }

    /// A player that died at `time` may be spawned again from the moment
    /// at which the respawn delay has passed, and not before; and once it
    /// is spawned, no second one may be.
    pub proof fn lemma_respawn_timing(time: u64, now: u64)
        ensures
            (PlayerState { on: false, last_shot: Some(time) }).may_spawn(now) <==> now >= time
                + PLAYER_RESPAWN_DELAY,
            !(PlayerState { on: true, last_shot: None }).may_spawn(now),
    {
    }

    #[verifier::when_used_as_spec(alive)]
    pub fn is_alive(&self) -> (alive: bool)
        ensures
            alive == self.on,
    {
        self.on
    }

    /// The player was destroyed at `time`.
    pub fn shot(&mut self, time: u64)
        ensures
            *final(self) == (PlayerState { on: false, last_shot: Some(time) }),
    {
        self.on = false;
        self.last_shot = Some(time);
    }

    /// The player was spawned.
    pub fn spawned(&mut self)
        ensures
            *final(self) == (PlayerState { on: true, last_shot: None }),
    {
        self.on = true;
        self.last_shot = None;
    }

    /// Decides whether a player may be spawned at `now`.
    pub fn can_spawn(&self, now: u64) -> (ok: bool)
        ensures
            ok == self.may_spawn(now),
    {
        if self.on {
            false
        } else {
            match self.last_shot {
                None => true,
                Some(t) => now >= t && now - t >= PLAYER_RESPAWN_DELAY,
            }
        }
    }
}

} // verus!
