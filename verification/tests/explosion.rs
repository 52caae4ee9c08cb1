use space_invaders::commands::Commands;
use space_invaders::commands::Entity;
use space_invaders::components::Bundle;
use space_invaders::components::Explosion;
use space_invaders::components::ExplosionTimer;
use space_invaders::components::ExplosionToSpawn;
use space_invaders::components::TextureAtlasSprite;
use space_invaders::components::Timer;
use space_invaders::components::Transform;
use space_invaders::components::Vec2;
use space_invaders::enemy::enemy_laser;
use space_invaders::explosion::explosion;
use space_invaders::explosion::explosion_animation_system;
use space_invaders::explosion::explosion_request;
use space_invaders::explosion::explosion_to_spawn_system;
use space_invaders::EXPLOSION_LENGTH;
use space_invaders::EXPLOSION_PERIOD;

#[test]
fn explosion_constants() {
    assert_eq!(EXPLOSION_LENGTH, 16);
    assert_eq!(EXPLOSION_PERIOD, 50_000);
}

#[test]
fn a_request_holds_its_position() {
    let at = Vec2 { x: 3, y: -4 };
    let b = explosion_request(at);
    assert_eq!(
        b,
        Bundle {
            explosion_to_spawn: Some(ExplosionToSpawn(at)),
            ..Bundle::bare(Transform::from_translation(at))
        }
    );
}

#[test]
fn an_explosion_starts_at_its_first_frame() {
    let at = Vec2 { x: 3, y: -4 };
    let b = explosion(at);
    assert_eq!(
        b,
        Bundle {
            explosion: Some(Explosion),
            explosion_timer: Some(ExplosionTimer(Timer {
                elapsed: 0,
                duration: 50_000,
                finished: false
            })),
            sprite: Some(TextureAtlasSprite { index: 0 }),
            ..Bundle::bare(Transform::from_translation(at))
        }
    );
}

#[test]
fn requests_become_explosions() {
    let first = Vec2 { x: 1, y: 2 };
    let second = Vec2 { x: 3, y: 4 };
    let entities = vec![
        Some(explosion_request(first)),
        None,
        Some(enemy_laser(0, 0)),
        Some(explosion_request(second)),
        Some(explosion(first)),
    ];
    let mut commands = Commands::new();
    explosion_to_spawn_system(&mut commands, &entities);
    assert_eq!(commands.spawns(), &vec![explosion(first), explosion(second)]);
    assert_eq!(commands.despawns(), &vec![Entity(0), Entity(3)]);
}

#[test]
fn no_request_no_explosion() {
    let entities = vec![None, Some(enemy_laser(0, 0))];
    let mut commands = Commands::new();
    explosion_to_spawn_system(&mut commands, &entities);
    assert!(commands.spawns().is_empty());
    assert!(commands.despawns().is_empty());
}

#[test]
fn explosion_lifecycle() {
    let mut entities = vec![Some(explosion(Vec2 { x: 0, y: 0 }))];
    let mut commands = Commands::new();
    for frame in 1..=15 {
        explosion_animation_system(&mut commands, 50_000, &mut entities);
        assert_eq!(entities[0].unwrap().sprite, Some(TextureAtlasSprite { index: frame }));
        assert!(commands.despawns().is_empty());
    }
    // after 15 periods it still exists, with frame index 15
    assert_eq!(entities[0].unwrap().sprite.unwrap().index, 15);
    assert!(!commands.is_despawned(Entity(0)));
    // the 16th period ends it
    explosion_animation_system(&mut commands, 50_000, &mut entities);
    assert_eq!(commands.despawns(), &vec![Entity(0)]);
    assert!(commands.spawns().is_empty());
}

#[test]
fn a_frame_takes_a_whole_period() {
    let mut entities = vec![Some(explosion(Vec2 { x: 0, y: 0 }))];
    let mut commands = Commands::new();
    explosion_animation_system(&mut commands, 25_000, &mut entities);
    assert_eq!(entities[0].unwrap().sprite.unwrap().index, 0);
    explosion_animation_system(&mut commands, 24_999, &mut entities);
    assert_eq!(entities[0].unwrap().sprite.unwrap().index, 0);
    explosion_animation_system(&mut commands, 1, &mut entities);
    assert_eq!(entities[0].unwrap().sprite.unwrap().index, 1);
    assert_eq!(
        entities[0].unwrap().explosion_timer,
        Some(ExplosionTimer(Timer { elapsed: 0, duration: 50_000, finished: true }))
    );
}

#[test]
fn a_long_tick_advances_by_one_frame() {
    let mut entities = vec![Some(explosion(Vec2 { x: 0, y: 0 }))];
    let mut commands = Commands::new();
    explosion_animation_system(&mut commands, 800_000, &mut entities);
    assert_eq!(entities[0].unwrap().sprite.unwrap().index, 1);
    assert!(commands.despawns().is_empty());
}

#[test]
fn animation_leaves_everything_else_alone() {
    let at = Vec2 { x: 0, y: 0 };
    let mut no_timer = explosion(at);
    no_timer.explosion_timer = None;
    let mut no_sprite = explosion(at);
    no_sprite.sprite = None;
    let mut no_tag = explosion(at);
    no_tag.explosion = None;
    let before =
        vec![Some(no_timer), Some(no_sprite), Some(no_tag), None, Some(enemy_laser(0, 0))];
    let mut entities = before.clone();
    let mut commands = Commands::new();
    explosion_animation_system(&mut commands, 50_000, &mut entities);
    assert_eq!(entities, before);
    assert!(commands.despawns().is_empty());
}

#[test]
fn the_last_frame_index_is_kept() {
    let mut b = explosion(Vec2 { x: 0, y: 0 });
    b.sprite = Some(TextureAtlasSprite { index: usize::MAX });
    let mut entities = vec![Some(b)];
    let mut commands = Commands::new();
    explosion_animation_system(&mut commands, 50_000, &mut entities);
    assert_eq!(entities[0].unwrap().sprite.unwrap().index, usize::MAX);
    assert_eq!(commands.despawns(), &vec![Entity(0)]);
}
