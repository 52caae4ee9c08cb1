use space_invaders::collision::collide;
use space_invaders::collision::enemy_laser_hit_player_system;
use space_invaders::collision::hits;
use space_invaders::collision::player_laser_hit_enemy_system;
use space_invaders::commands::Audio;
use space_invaders::commands::AudioCue;
use space_invaders::commands::Commands;
use space_invaders::commands::Entity;
use space_invaders::components::Attributes;
use space_invaders::components::Bundle;
use space_invaders::components::Vec2;
use space_invaders::enemy::enemy_bundle;
use space_invaders::enemy::enemy_laser;
use space_invaders::enemy::formation::Formation;
use space_invaders::explosion::explosion_request;
use space_invaders::fixed::UNIT;
use space_invaders::player::player_bundle;
use space_invaders::player::player_laser;
use space_invaders::EnemyCount;
use space_invaders::GameState;
use space_invaders::PlayerState;
use space_invaders::WinSize;

fn window() -> WinSize {
    WinSize { width: 598_000, height: 676_000 }
}

fn orbit() -> Formation {
    Formation {
        start: (399_000, 0),
        radius: (200_000, 130_000),
        speed: 500_000,
        pivot: (0, 0),
        angle: (399_000, 0),
    }
}

fn enemy(x: i32, y: i32) -> Option<Bundle> {
    Some(enemy_bundle(x, y, orbit()))
}

fn player_at(x: i32, y: i32, health: i32) -> Bundle {
    let mut b = player_bundle(&window());
    b.transform.translation = Vec2 { x, y };
    b.attributes = Some(Attributes { health });
    b
}

fn alive() -> PlayerState {
    PlayerState { on: true, last_shot: None }
}

#[test]
fn collision_exactness() {
    let size = Vec2 { x: 10 * UNIT, y: 10 * UNIT };
    let origin = Vec2 { x: 0, y: 0 };
    assert!(collide(origin, size, Vec2 { x: 9 * UNIT, y: 0 }, size));
    assert!(!collide(origin, size, Vec2 { x: 11 * UNIT, y: 0 }, size));
}

#[test]
fn boxes_that_touch_do_not_collide() {
    let size = Vec2 { x: 10 * UNIT, y: 10 * UNIT };
    let origin = Vec2 { x: 0, y: 0 };
    assert!(!collide(origin, size, Vec2 { x: 10 * UNIT, y: 0 }, size));
    assert!(collide(origin, size, Vec2 { x: 10 * UNIT - 1, y: 0 }, size));
    assert!(!collide(origin, size, Vec2 { x: 0, y: -10 * UNIT }, size));
    assert!(collide(origin, size, Vec2 { x: 0, y: -10 * UNIT + 1 }, size));
}

#[test]
fn collision_needs_overlap_on_both_axes() {
    let size = Vec2 { x: 10 * UNIT, y: 10 * UNIT };
    let origin = Vec2 { x: 0, y: 0 };
    assert!(collide(origin, size, Vec2 { x: 9 * UNIT, y: 9 * UNIT }, size));
    assert!(!collide(origin, size, Vec2 { x: 9 * UNIT, y: 11 * UNIT }, size));
    assert!(!collide(origin, size, Vec2 { x: -11 * UNIT, y: 9 * UNIT }, size));
}

#[test]
fn collision_of_boxes_of_different_sizes() {
    let small = Vec2 { x: 3, y: 3 };
    let large = Vec2 { x: 100, y: 100 };
    assert!(collide(Vec2 { x: 51, y: 0 }, small, Vec2 { x: 0, y: 0 }, large));
    assert!(!collide(Vec2 { x: 52, y: 0 }, small, Vec2 { x: 0, y: 0 }, large));
    assert!(collide(Vec2 { x: 0, y: 0 }, large, Vec2 { x: 51, y: 0 }, small));
}

#[test]
fn collision_at_the_ends_of_the_range() {
    let huge = Vec2 { x: i32::MAX, y: i32::MAX };
    assert!(collide(Vec2 { x: i32::MAX, y: i32::MAX }, huge, Vec2 { x: i32::MAX, y: i32::MAX }, huge));
    assert!(!collide(Vec2 { x: i32::MIN, y: 0 }, huge, Vec2 { x: i32::MAX, y: 0 }, huge));
    let empty = Vec2 { x: 0, y: 0 };
    assert!(!collide(Vec2 { x: 0, y: 0 }, empty, Vec2 { x: 0, y: 0 }, empty));
}

#[test]
fn hits_go_by_the_scaled_size() {
    // laser 4.5 by 27, enemy 72 by 37.5
    let target = enemy_bundle(0, 0, orbit());
    assert!(hits(player_laser(38_249, 0), target));
    assert!(!hits(player_laser(38_250, 0), target));
    assert!(hits(player_laser(0, -32_249), target));
    assert!(!hits(player_laser(0, -32_250), target));
}

#[test]
fn a_laser_destroys_the_first_enemy_that_it_overlaps() {
    let entities = vec![Some(player_laser(0, 0)), enemy(1_000, 2_000), enemy(10_000, 0)];
    let mut commands = Commands::new();
    let mut count = EnemyCount(2);
    let mut game = GameState { score: 0 };
    let mut audio = Audio::new();
    player_laser_hit_enemy_system(&mut commands, &mut count, &entities, &mut game, &mut audio);
    assert_eq!(commands.despawns(), &vec![Entity(0), Entity(1)]);
    assert_eq!(commands.spawns(), &vec![explosion_request(Vec2 { x: 1_000, y: 2_000 })]);
    assert_eq!(count, EnemyCount(1));
    assert_eq!(game.score, 5);
    assert_eq!(audio.cues(), &vec![AudioCue::EnemyExploded]);
}

#[test]
fn an_enemy_is_destroyed_once() {
    let entities = vec![Some(player_laser(0, 0)), Some(player_laser(0, 0)), enemy(0, 0)];
    let mut commands = Commands::new();
    let mut count = EnemyCount(1);
    let mut game = GameState { score: 0 };
    let mut audio = Audio::new();
    player_laser_hit_enemy_system(&mut commands, &mut count, &entities, &mut game, &mut audio);
    assert_eq!(commands.despawns(), &vec![Entity(0), Entity(2)]);
    assert_eq!(commands.spawns().len(), 1);
    assert_eq!(count, EnemyCount(0));
    assert_eq!(game.score, 5);
}

#[test]
fn each_laser_takes_the_first_enemy_left() {
    let entities =
        vec![enemy(0, 0), Some(player_laser(0, 0)), enemy(5_000, 0), Some(player_laser(0, 0))];
    let mut commands = Commands::new();
    let mut count = EnemyCount(7);
    let mut game = GameState { score: 100 };
    let mut audio = Audio::new();
    player_laser_hit_enemy_system(&mut commands, &mut count, &entities, &mut game, &mut audio);
    assert_eq!(commands.despawns(), &vec![Entity(1), Entity(0), Entity(3), Entity(2)]);
    assert_eq!(
        commands.spawns(),
        &vec![explosion_request(Vec2 { x: 0, y: 0 }), explosion_request(Vec2 { x: 5_000, y: 0 })]
    );
    assert_eq!(count, EnemyCount(5));
    assert_eq!(game.score, 110);
    assert_eq!(audio.cues(), &vec![AudioCue::EnemyExploded, AudioCue::EnemyExploded]);
}

#[test]
fn what_is_queued_for_despawn_takes_no_part() {
    let entities =
        vec![Some(player_laser(0, 0)), enemy(0, 0), Some(player_laser(0, 0)), enemy(0, 0)];
    let mut commands = Commands::new();
    commands.despawn(Entity(0));
    commands.despawn(Entity(1));
    let mut count = EnemyCount(1);
    let mut game = GameState { score: 0 };
    let mut audio = Audio::new();
    player_laser_hit_enemy_system(&mut commands, &mut count, &entities, &mut game, &mut audio);
    assert_eq!(commands.despawns(), &vec![Entity(0), Entity(1), Entity(2), Entity(3)]);
    assert_eq!(count, EnemyCount(0));
    assert_eq!(game.score, 5);
}

#[test]
fn lasers_that_miss_change_nothing() {
    let entities = vec![Some(player_laser(0, 0)), enemy(100_000, 0), enemy(0, 100_000)];
    let mut commands = Commands::new();
    let mut count = EnemyCount(2);
    let mut game = GameState { score: 15 };
    let mut audio = Audio::new();
    player_laser_hit_enemy_system(&mut commands, &mut count, &entities, &mut game, &mut audio);
    assert!(commands.despawns().is_empty());
    assert!(commands.spawns().is_empty());
    assert_eq!(count, EnemyCount(2));
    assert_eq!(game.score, 15);
    assert!(audio.cues().is_empty());
}

#[test]
fn no_laser_or_no_enemy_is_no_hit() {
    for entities in [vec![], vec![Some(player_laser(0, 0))], vec![enemy(0, 0)], vec![None, None]] {
        let mut commands = Commands::new();
        let mut count = EnemyCount(1);
        let mut game = GameState { score: 0 };
        let mut audio = Audio::new();
        player_laser_hit_enemy_system(&mut commands, &mut count, &entities, &mut game, &mut audio);
        assert!(commands.despawns().is_empty());
        assert!(commands.spawns().is_empty());
        assert_eq!(count, EnemyCount(1));
        assert_eq!(game.score, 0);
    }
}

#[test]
fn enemy_lasers_spare_enemies_and_player_lasers_spare_the_player() {
    let entities = vec![Some(enemy_laser(0, 0)), enemy(0, 0)];
    let mut commands = Commands::new();
    let mut count = EnemyCount(1);
    let mut game = GameState { score: 0 };
    let mut audio = Audio::new();
    player_laser_hit_enemy_system(&mut commands, &mut count, &entities, &mut game, &mut audio);
    assert!(commands.despawns().is_empty());
    assert_eq!(count, EnemyCount(1));

    let mut entities = vec![Some(player_laser(0, 0)), Some(player_at(0, 0, 100))];
    let mut state = alive();
    enemy_laser_hit_player_system(&mut commands, &mut state, 1, &mut entities, &mut audio);
    assert!(commands.despawns().is_empty());
    assert_eq!(entities[1], Some(player_at(0, 0, 100)));
    assert_eq!(state, alive());
}

#[test]
fn the_score_stops_at_its_largest() {
    let entities = vec![Some(player_laser(0, 0)), enemy(0, 0)];
    let mut commands = Commands::new();
    let mut count = EnemyCount(1);
    let mut game = GameState { score: u32::MAX - 2 };
    let mut audio = Audio::new();
    player_laser_hit_enemy_system(&mut commands, &mut count, &entities, &mut game, &mut audio);
    assert_eq!(game.score, u32::MAX);
    assert_eq!(count, EnemyCount(0));
}

#[test]
fn damage_accumulation() {
    let mut entities = vec![Some(player_bundle(&window())), None];
    let at = entities[0].unwrap().transform.translation;
    let mut state = alive();
    for k in 1..=10 {
        entities[1] = Some(enemy_laser(at.x, at.y));
        let mut commands = Commands::new();
        let mut audio = Audio::new();
        let now = 1_000 * k as u64;
        enemy_laser_hit_player_system(&mut commands, &mut state, now, &mut entities, &mut audio);
        let health = entities[0].unwrap().attributes.unwrap().health;
        assert_eq!(health, 100 - 10 * k);
        if k < 10 {
            assert_eq!(commands.despawns(), &vec![Entity(1)]);
            assert!(commands.spawns().is_empty());
            assert_eq!(state, alive());
            assert_eq!(audio.cues(), &vec![AudioCue::PlayerHit]);
        } else {
            assert_eq!(commands.despawns(), &vec![Entity(1), Entity(0)]);
            assert_eq!(commands.spawns(), &vec![explosion_request(at)]);
            assert_eq!(state, PlayerState { on: false, last_shot: Some(10_000) });
            assert_eq!(audio.cues(), &vec![AudioCue::PlayerExploded]);
        }
    }
}

#[test]
fn one_hit_on_the_player_in_a_tick() {
    let mut entities = vec![
        Some(enemy_laser(500_000, 0)),
        Some(enemy_laser(0, 0)),
        Some(player_at(0, 0, 100)),
        Some(enemy_laser(0, 0)),
        Some(enemy_laser(1, 1)),
    ];
    let mut commands = Commands::new();
    let mut state = alive();
    let mut audio = Audio::new();
    enemy_laser_hit_player_system(&mut commands, &mut state, 0, &mut entities, &mut audio);
    assert_eq!(commands.despawns(), &vec![Entity(1)]);
    assert_eq!(entities[2], Some(player_at(0, 0, 90)));
    assert_eq!(audio.cues(), &vec![AudioCue::PlayerHit]);
}

#[test]
fn a_weak_player_is_destroyed_by_one_hit() {
    let mut entities = vec![Some(player_at(7_000, -9_000, 10)), Some(enemy_laser(7_000, -9_000))];
    let mut commands = Commands::new();
    let mut state = alive();
    let mut audio = Audio::new();
    enemy_laser_hit_player_system(&mut commands, &mut state, 5_000_000, &mut entities, &mut audio);
    assert_eq!(entities[0], Some(player_at(7_000, -9_000, 0)));
    assert_eq!(commands.despawns(), &vec![Entity(1), Entity(0)]);
    assert_eq!(commands.spawns(), &vec![explosion_request(Vec2 { x: 7_000, y: -9_000 })]);
    assert_eq!(state, PlayerState { on: false, last_shot: Some(5_000_000) });
    assert_eq!(audio.cues(), &vec![AudioCue::PlayerExploded]);
}

#[test]
fn health_stops_at_its_least() {
    let mut entities = vec![Some(player_at(0, 0, i32::MIN + 3)), Some(enemy_laser(0, 0))];
    let mut commands = Commands::new();
    let mut state = alive();
    let mut audio = Audio::new();
    enemy_laser_hit_player_system(&mut commands, &mut state, 0, &mut entities, &mut audio);
    assert_eq!(entities[0], Some(player_at(0, 0, i32::MIN)));
}

#[test]
fn without_a_single_player_no_laser_hits() {
    let laser = Some(enemy_laser(0, 0));
    let player = Some(player_at(0, 0, 100));
    for mut entities in [vec![laser], vec![laser, player, player], vec![]] {
        let before = entities.clone();
        let mut commands = Commands::new();
        let mut state = alive();
        let mut audio = Audio::new();
        enemy_laser_hit_player_system(&mut commands, &mut state, 0, &mut entities, &mut audio);
        assert_eq!(entities, before);
        assert!(commands.despawns().is_empty());
        assert!(commands.spawns().is_empty());
        assert!(audio.cues().is_empty());
        assert_eq!(state, alive());
    }
}

#[test]
fn a_player_without_health_is_not_hit() {
    let mut player = player_at(0, 0, 100);
    player.attributes = None;
    let mut entities = vec![Some(player), Some(enemy_laser(0, 0))];
    let mut commands = Commands::new();
    let mut state = alive();
    let mut audio = Audio::new();
    enemy_laser_hit_player_system(&mut commands, &mut state, 0, &mut entities, &mut audio);
    assert_eq!(entities[0], Some(player));
    assert!(commands.despawns().is_empty());
}
