//! The components that an entity of the simulation is made of.
//!
//! An entity owns a [`Bundle`]: a transform and any of the optional
//! components below. Systems select the entities they work on by the
//! components that are present.
use vstd::prelude::*;
use crate::enemy::formation::Formation;

verus! {

/// A point or an extent of the plane, in thousandths of a world unit.
#[derive(Clone, Copy, Debug, PartialEq, Eq)]
pub struct Vec2 {
    pub x: i32,
    pub y: i32,
}

impl Vec2 {
    pub fn new(x: i32, y: i32) -> (v: Self)
        ensures
            v == (Vec2 { x, y }),
    {
        Vec2 { x, y }
    }
}

/// Where an entity is, and the factor (in thousandths) by which its sprite
/// is scaled on each axis.
#[derive(Clone, Copy, Debug, PartialEq, Eq)]
pub struct Transform {
    pub translation: Vec2,
    pub scale: Vec2,
}

impl Transform {
    /// The transform at `translation` with both scale factors equal to one.
    pub open spec fn spec_from_translation(translation: Vec2) -> Self {
        Transform { translation, scale: Vec2 { x: crate::fixed::UNIT, y: crate::fixed::UNIT } }
    }

    #[verifier::when_used_as_spec(spec_from_translation)]
    pub fn from_translation(translation: Vec2) -> (t: Self)
        ensures
            t == Self::spec_from_translation(translation),
    {
        Transform { translation, scale: Vec2 { x: crate::fixed::UNIT, y: crate::fixed::UNIT } }
    }
}

/// Direction of travel: thousandths of the base speed on each axis.
#[derive(Clone, Copy, Debug, PartialEq, Eq)]
pub struct Velocity {
    pub x: i32,
    pub y: i32,
}

/// What a craft can take before it is destroyed.
#[derive(Clone, Copy, Debug, PartialEq, Eq)]
pub struct Attributes {
    pub health: i32,
}

impl Default for Attributes {
    fn default() -> (a: Self)
        ensures
            a.health == 100,
    {
        Attributes { health: 100 }
    }
}

/// Marks an entity that the motion system moves; with `auto_despawn` it is
/// removed once it has left the play area.
#[derive(Clone, Copy, Debug, PartialEq, Eq)]
pub struct Movable {
    pub auto_despawn: bool,
}

/// Tag of a projectile.
#[derive(Clone, Copy, Debug, PartialEq, Eq)]
pub struct Laser;

/// Width and height of a sprite before scaling.
#[derive(Clone, Copy, Debug, PartialEq, Eq)]
pub struct SpriteSize(pub Vec2);

impl From<(i32, i32)> for SpriteSize {
    fn from(size: (i32, i32)) -> (s: Self) {
        SpriteSize(Vec2 { x: size.0, y: size.1 })
    }
}

impl vstd::std_specs::convert::FromSpecImpl<(i32, i32)> for SpriteSize {
    open spec fn obeys_from_spec() -> bool {
        true
    }

    open spec fn from_spec(size: (i32, i32)) -> Self {
        SpriteSize(Vec2 { x: size.0, y: size.1 })
    }
}

/// Tag of the player's craft.
#[derive(Clone, Copy, Debug, PartialEq, Eq)]
pub struct Player;

/// Tag of a projectile that the player fired.
#[derive(Clone, Copy, Debug, PartialEq, Eq)]
pub struct FromPlayer;

/// Tag of an enemy craft.
#[derive(Clone, Copy, Debug, PartialEq, Eq)]
pub struct Enemy;

/// Tag of a projectile that an enemy fired.
#[derive(Clone, Copy, Debug, PartialEq, Eq)]
pub struct FromEnemy;

/// Tag of an animated explosion.
#[derive(Clone, Copy, Debug, PartialEq, Eq)]
pub struct Explosion;

/// A request to start an explosion at a position.
#[derive(Clone, Copy, Debug, PartialEq, Eq)]
pub struct ExplosionToSpawn(pub Vec2);

/// A repeating timer, in microseconds.
///
/// Each tick adds the elapsed time. The timer is finished after a tick in
/// which the sum reached the duration; what exceeds a whole number of
/// durations is carried over. A timer of duration zero finishes on every
/// tick and carries nothing.
#[derive(Clone, Copy, Debug, PartialEq, Eq)]
pub struct Timer {
    pub elapsed: u64,
    pub duration: u64,
    pub finished: bool,
}

impl Timer {
    pub open spec fn spec_from_micros(duration: u64) -> Self {
        Timer { elapsed: 0, duration, finished: false }
    }

    /// A timer that has not run yet.
    #[verifier::when_used_as_spec(spec_from_micros)]
    pub fn from_micros(duration: u64) -> (t: Self)
        ensures
            t == Self::spec_from_micros(duration),
    {
        Timer { elapsed: 0, duration, finished: false }
    }

    /// The timer after `delta` more microseconds.
    pub open spec fn ticked(self, delta: u64) -> Self {
        let total = self.elapsed + delta;
        if total >= self.duration {
            Timer {
                elapsed: if self.duration == 0 {
                    0
                } else {
                    (total % (self.duration as int)) as u64
                },
                duration: self.duration,
                finished: true,
            }
        } else {
            Timer { elapsed: total as u64, duration: self.duration, finished: false }
        }
    }

    /// Advances the timer by `delta` microseconds.
    pub fn tick(&mut self, delta: u64)
        ensures
            *final(self) == old(self).ticked(delta),
    {
        let total: u128 = self.elapsed as u128 + delta as u128;
        if total >= self.duration as u128 {
            self.elapsed = if self.duration == 0 {
                0
            } else {
                (total % (self.duration as u128)) as u64
            };
            self.finished = true;
        } else {
            self.elapsed = total as u64;
            self.finished = false;
        }
    }

    /// Whether the last tick completed a period.
    pub fn finished(&self) -> (f: bool)
        ensures
            f == self.finished,
    {
        self.finished
    }
}

/// The timer that paces the frames of an explosion.
#[derive(Clone, Copy, Debug, PartialEq, Eq)]
pub struct ExplosionTimer(pub Timer);

impl ExplosionTimer {
    pub open spec fn spec_default() -> Self {
        ExplosionTimer(Timer::spec_from_micros(crate::EXPLOSION_PERIOD))
    }
}

impl Default for ExplosionTimer {
    fn default() -> (t: Self)
        ensures
            t == Self::spec_default(),
    {
        ExplosionTimer(Timer::from_micros(crate::EXPLOSION_PERIOD))
    }
}

/// The frame of a sprite sheet that stands for an entity.
#[derive(Clone, Copy, Debug, PartialEq, Eq)]
pub struct TextureAtlasSprite {
    pub index: usize,
}

/// All the components of one entity.
#[derive(Clone, Copy, Debug, PartialEq, Eq)]
pub struct Bundle {
    pub transform: Transform,
    pub sprite_size: Option<SpriteSize>,
    pub velocity: Option<Velocity>,
    pub movable: Option<Movable>,
    pub attributes: Option<Attributes>,
    pub formation: Option<Formation>,
    pub laser: Option<Laser>,
    pub player: Option<Player>,
    pub from_player: Option<FromPlayer>,
    pub enemy: Option<Enemy>,
    pub from_enemy: Option<FromEnemy>,
    pub explosion: Option<Explosion>,
    pub explosion_to_spawn: Option<ExplosionToSpawn>,
    pub explosion_timer: Option<ExplosionTimer>,
    pub sprite: Option<TextureAtlasSprite>,
}

impl Bundle {
    /// The bundle that holds `transform` and nothing else.
    pub open spec fn spec_bare(transform: Transform) -> Self {
        Bundle {
            transform,
            sprite_size: None,
            velocity: None,
            movable: None,
            attributes: None,
            formation: None,
            laser: None,
            player: None,
            from_player: None,
            enemy: None,
            from_enemy: None,
            explosion: None,
            explosion_to_spawn: None,
            explosion_timer: None,
            sprite: None,
        }
    }

    #[verifier::when_used_as_spec(spec_bare)]
    pub fn bare(transform: Transform) -> (b: Self)
        ensures
            b == Self::spec_bare(transform),
    {
        Bundle {
            transform,
            sprite_size: None,
            velocity: None,
            movable: None,
            attributes: None,
            formation: None,
            laser: None,
            player: None,
            from_player: None,
            enemy: None,
            from_enemy: None,
            explosion: None,
            explosion_to_spawn: None,
            explosion_timer: None,
            sprite: None,
        }
    }

    /// The size of the sprite as drawn: its size multiplied by the scale of
    /// the transform, axis by axis. An entity without a size has none.
    pub open spec fn spec_scaled_size(&self) -> Vec2 {
        match self.sprite_size {
            Some(size) => Vec2 {
                x: crate::fixed::scaled(size.0.x as int, self.transform.scale.x as int) as i32,
                y: crate::fixed::scaled(size.0.y as int, self.transform.scale.y as int) as i32,
            },
            None => Vec2 { x: 0, y: 0 },
        }
    }

    #[verifier::when_used_as_spec(spec_scaled_size)]
    pub fn scaled_size(&self) -> (s: Vec2)
        ensures
            s == self.spec_scaled_size(),
    {
        match self.sprite_size {
            Some(size) => Vec2 {
                x: crate::fixed::scale(size.0.x, self.transform.scale.x),
                y: crate::fixed::scale(size.0.y, self.transform.scale.y),
            },
            None => Vec2 { x: 0, y: 0 },
        }
    }
}

} // verus!
