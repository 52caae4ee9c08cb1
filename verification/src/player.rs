//! The craft of the player: spawning, steering and firing.
use vstd::prelude::*;
use crate::commands::Audio;
use crate::commands::AudioCue;
use crate::commands::Commands;
use crate::components::Attributes;
use crate::components::Bundle;
use crate::components::FromPlayer;
use crate::components::Laser;
use crate::components::Movable;
use crate::components::Player;
use crate::components::SpriteSize;
use crate::components::Transform;
use crate::components::Vec2;
use crate::components::Velocity;
use crate::fixed::div_trunc;
use crate::fixed::saturate;
use crate::fixed::saturate_i64;
use crate::query::single_player;
use crate::query::spec_single_player;
use crate::PlayerState;
use crate::WinSize;
use crate::PLAYER_LASER_SIZE;
use crate::PLAYER_SIZE;
use crate::SPRITE_SCALE;

verus! {

/// Height of the centre of a new player above the lower edge: half the
/// scaled height of its sprite, and five units.
pub const PLAYER_SPAWN_LIFT: i32 = 23_750;

/// Distance of each laser of the player from the centre of the craft: half
/// the scaled width of its sprite, less five units.
pub const PLAYER_LASER_OFFSET: i32 = 31_000;

/// Height above the centre of the craft at which its lasers start.
pub const PLAYER_LASER_LIFT: i32 = 15_000;

/// The craft that is spawned for the player: at the middle of the lower
/// edge, at rest, with full health.
pub open spec fn spec_player_bundle(win_size: &WinSize) -> Bundle {
    Bundle {
        transform: Transform {
            translation: Vec2 {
                x: 0,
                y: (-div_trunc(win_size.height as int, 2) + PLAYER_SPAWN_LIFT) as i32,
            },
            scale: Vec2 { x: SPRITE_SCALE, y: SPRITE_SCALE },
        },
        sprite_size: Some(SpriteSize(Vec2 { x: PLAYER_SIZE.0, y: PLAYER_SIZE.1 })),
        velocity: Some(Velocity { x: 0, y: 0 }),
        movable: Some(Movable { auto_despawn: false }),
        attributes: Some(Attributes { health: 100 }),
        formation: None,
        laser: None,
        player: Some(Player),
        from_player: None,
        enemy: None,
        from_enemy: None,
        explosion: None,
        explosion_to_spawn: None,
        explosion_timer: None,
        sprite: None,
    }
}

#[verifier::when_used_as_spec(spec_player_bundle)]
pub fn player_bundle(win_size: &WinSize) -> (b: Bundle)
    ensures
        b == spec_player_bundle(win_size),
{
    let bottom: i32 = -(win_size.height / 2);
    let mut b = Bundle::bare(
        Transform {
            translation: Vec2 { x: 0, y: bottom + PLAYER_SPAWN_LIFT },
            scale: Vec2 { x: SPRITE_SCALE, y: SPRITE_SCALE },
        },
    );
    b.sprite_size = Some(SpriteSize::from(PLAYER_SIZE));
    b.velocity = Some(Velocity { x: 0, y: 0 });
    b.movable = Some(Movable { auto_despawn: false });
    b.attributes = Some(Attributes::default());
    b.player = Some(Player);
    b
}

/// Spawns the player where none is alive and either none has died yet or
/// the respawn delay has passed since the last death; the player is then
/// alive. Otherwise nothing changes.
pub fn player_spawn_system(
    commands: &mut Commands,
    player_state: &mut PlayerState,
    now: u64,
    win_size: &WinSize,
)
    ensures
        old(commands).wf() ==> final(commands).wf(),
        final(commands).despawn_queue() == old(commands).despawn_queue(),
        old(player_state).may_spawn(now) ==> {
            &&& final(commands).spawned() == old(commands).spawned().push(
                spec_player_bundle(win_size),
            )
            &&& *final(player_state) == (PlayerState { on: true, last_shot: None })
        },
        !old(player_state).may_spawn(now) ==> {
            &&& final(commands).spawned() == old(commands).spawned()
            &&& *final(player_state) == *old(player_state)
        },
{
    if player_state.can_spawn(now) {
        commands.spawn(player_bundle(win_size));
        player_state.spawned();
    }
}

/// A laser of the player that starts at `(x, y)` and flies upward.
pub open spec fn spec_player_laser(x: i32, y: i32) -> Bundle {
    Bundle {
        transform: Transform {
            translation: Vec2 { x, y },
            scale: Vec2 { x: SPRITE_SCALE, y: SPRITE_SCALE },
        },
        sprite_size: Some(SpriteSize(Vec2 { x: PLAYER_LASER_SIZE.0, y: PLAYER_LASER_SIZE.1 })),
        velocity: Some(Velocity { x: 0, y: 1000 }),
        movable: Some(Movable { auto_despawn: true }),
        attributes: None,
        formation: None,
        laser: Some(Laser),
        player: None,
        from_player: Some(FromPlayer),
        enemy: None,
        from_enemy: None,
        explosion: None,
        explosion_to_spawn: None,
        explosion_timer: None,
        sprite: None,
    }
}

#[verifier::when_used_as_spec(spec_player_laser)]
pub fn player_laser(x: i32, y: i32) -> (b: Bundle)
    ensures
        b == spec_player_laser(x, y),
{
    let mut b = Bundle::bare(
        Transform {
            translation: Vec2 { x, y },
            scale: Vec2 { x: SPRITE_SCALE, y: SPRITE_SCALE },
        },
    );
    b.sprite_size = Some(SpriteSize::from(PLAYER_LASER_SIZE));
    b.velocity = Some(Velocity { x: 0, y: 1000 });
    b.movable = Some(Movable { auto_despawn: true });
    b.laser = Some(Laser);
    b.from_player = Some(FromPlayer);
    b
}

/// The two lasers that a craft at `at` fires: the left one, then the right
/// one.
pub open spec fn player_lasers(at: Vec2) -> Seq<Bundle> {
    let y = saturate(at.y + PLAYER_LASER_LIFT) as i32;
    seq![
        spec_player_laser(saturate(at.x - PLAYER_LASER_OFFSET) as i32, y),
        spec_player_laser(saturate(at.x + PLAYER_LASER_OFFSET) as i32, y),
    ]
}

/// When `fire` is set and there is exactly one player, spawns its two
/// lasers and asks for their sound. Otherwise nothing changes.
pub fn player_fire_system(
    commands: &mut Commands,
    audio: &mut Audio,
    fire: bool,
    entities: &Vec<Option<Bundle>>,
)
    ensures
        old(commands).wf() ==> final(commands).wf(),
        final(commands).despawn_queue() == old(commands).despawn_queue(),
        fire && spec_single_player(entities@) is Some ==> {
            let at = entities@[spec_single_player(entities@).unwrap()].unwrap().transform.translation;
            &&& final(commands).spawned() == old(commands).spawned() + player_lasers(at)
            &&& final(audio).played() == old(audio).played().push(AudioCue::PlayerLaserFired)
        },
        !(fire && spec_single_player(entities@) is Some) ==> {
            &&& final(commands).spawned() == old(commands).spawned()
            &&& final(audio).played() == old(audio).played()
        },
{
    if !fire {
        return ;
    }
    if let Some(i) = single_player(entities) {
        let at = entities[i].unwrap().transform.translation;
        let y = saturate_i64(at.y as i64 + PLAYER_LASER_LIFT as i64);
        let left = saturate_i64(at.x as i64 - PLAYER_LASER_OFFSET as i64);
        let right = saturate_i64(at.x as i64 + PLAYER_LASER_OFFSET as i64);
        commands.spawn(player_laser(left, y));
        commands.spawn(player_laser(right, y));
        audio.play(AudioCue::PlayerLaserFired);
        assert(commands.spawned() =~= old(commands).spawned() + player_lasers(at));
    }
}

/// The horizontal velocity that the keys ask for: leftward if `move_left`
/// is held, else rightward if `move_right` is, else none.
pub open spec fn steering(move_left: bool, move_right: bool) -> i32 {
    if move_left {
        -1000i32
    } else if move_right {
        1000i32
    } else {
        0i32
    }
}

/// The slot after steering: a player with a velocity takes the horizontal
/// velocity `x`.
pub open spec fn steered(slot: Option<Bundle>, x: i32) -> Option<Bundle> {
    match slot {
        Some(b) => match b.velocity {
            Some(v) => Some(Bundle { velocity: Some(Velocity { x, y: v.y }), ..b }),
            None => slot,
        },
        None => slot,
    }
}

/// Sets the horizontal velocity of the player from the keys held, where
/// there is exactly one player. Nothing else changes.
pub fn player_keyboard_event_system(
    move_left: bool,
    move_right: bool,
    entities: &mut Vec<Option<Bundle>>,
)
    ensures
        final(entities)@ == match spec_single_player(old(entities)@) {
            Some(i) => old(entities)@.update(
                i,
                steered(old(entities)@[i], steering(move_left, move_right)),
            ),
            None => old(entities)@,
        },
{
    if let Some(i) = single_player(entities) {
        let mut b = entities[i].unwrap();
        if let Some(v) = b.velocity {
            let x: i32 = if move_left {
                -1000
            } else if move_right {
                1000
            } else {
                0
            };
            b.velocity = Some(Velocity { x, y: v.y });
            entities[i] = Some(b);
        } else {
            assert(entities@ =~= old(entities)@.update(i as int, old(entities)@[i as int]));
        }
    }
}

} // verus!
