use space_invaders::commands::Audio;
use space_invaders::commands::AudioCue;
use space_invaders::commands::Commands;
use space_invaders::components::Bundle;
use space_invaders::components::Enemy;
use space_invaders::components::FromEnemy;
use space_invaders::components::Laser;
use space_invaders::components::Movable;
use space_invaders::components::SpriteSize;
use space_invaders::components::Vec2;
use space_invaders::components::Velocity;
use space_invaders::enemy::enemy_bundle;
use space_invaders::enemy::enemy_fire_criteria;
use space_invaders::enemy::enemy_fire_system;
use space_invaders::enemy::enemy_headings;
use space_invaders::enemy::enemy_laser;
use space_invaders::enemy::enemy_movement_system;
use space_invaders::enemy::enemy_spawn_system;
use space_invaders::enemy::follow;
use space_invaders::enemy::follow_headings;
use space_invaders::enemy::formation::Formation;
use space_invaders::enemy::formation::FormationDraws;
use space_invaders::enemy::formation::FormationMaker;
use space_invaders::enemy::orbit_phase;
use space_invaders::enemy::orbit_target;
use space_invaders::enemy::spawn_enemy;
use space_invaders::enemy::EnemyDraws;
use space_invaders::enemy::Heading;
use space_invaders::enemy::MAX_STEP;
use space_invaders::player::player_bundle;
use space_invaders::random::RandomSource;
use space_invaders::EnemyCount;
use space_invaders::WinSize;

fn window() -> WinSize {
    WinSize { width: 598_000, height: 676_000 }
}

fn orbit() -> Formation {
    Formation {
        start: (399_000, 0),
        radius: (200_000, 130_000),
        speed: 500_000,
        pivot: (0, 0),
        angle: (399_000, 0),
    }
}

fn formation_draws() -> FormationDraws {
    FormationDraws { right_edge: true, start_y: 1, pivot_x: 2, pivot_y: 3, radius_x: 80_000 }
}

fn trig(phase: i32) -> Heading {
    let angle = phase as f64 / 1000.0 / std::f64::consts::PI;
    Heading {
        cos: (angle.cos() * 1_000_000.0).round() as i32,
        sin: (angle.sin() * 1_000_000.0).round() as i32,
    }
}

#[test]
fn max_step_is_base_speed_times_time_step() {
    assert_eq!(MAX_STEP, 500_000 / 60);
}

#[test]
fn orbit_phase_at_given_times() {
    assert_eq!(orbit_phase(500_000, 0), 0);
    assert_eq!(orbit_phase(500_000, 16_667), -138);
    assert_eq!(orbit_phase(500_000, 1_000_000), -8_333);
    assert_eq!(orbit_phase(500_000, 5_000_000), -41_666);
}

#[test]
fn orbit_phase_wraps_at_a_whole_turn() {
    assert_eq!(orbit_phase(500_000, 60_000_000), -140_000);
}

#[test]
fn orbit_phase_of_extreme_values() {
    assert_eq!(orbit_phase(i32::MIN, u64::MAX), 199_910);
    assert_eq!(orbit_phase(i32::MAX, u64::MAX), -225_348);
    assert_eq!(orbit_phase(0, u64::MAX), 0);
}

#[test]
fn orbit_target_on_the_axes() {
    assert_eq!(orbit_target(orbit(), Heading { cos: 1_000_000, sin: 0 }), Vec2 { x: 200_000, y: 0 });
    assert_eq!(orbit_target(orbit(), Heading { cos: 0, sin: 1_000_000 }), Vec2 { x: 0, y: 130_000 });
    assert_eq!(
        orbit_target(orbit(), Heading { cos: -1_000_000, sin: 0 }),
        Vec2 { x: -200_000, y: 0 }
    );
}

#[test]
fn orbit_target_round_a_pivot() {
    let f = Formation { pivot: (10_000, -20_000), ..orbit() };
    assert_eq!(
        orbit_target(f, Heading { cos: 500_000, sin: -866_025 }),
        Vec2 { x: 110_000, y: -132_583 }
    );
}

#[test]
fn orbit_target_saturates() {
    let f = Formation { radius: (i32::MAX, i32::MIN), pivot: (i32::MAX, i32::MIN), ..orbit() };
    assert_eq!(
        orbit_target(f, Heading { cos: i32::MAX, sin: i32::MAX }),
        Vec2 { x: i32::MAX, y: i32::MIN }
    );
}

#[test]
fn follow_moves_by_the_share_of_each_axis() {
    assert_eq!(follow(Vec2 { x: 0, y: 0 }, Vec2 { x: 30_000, y: 40_000 }), Vec2 { x: 4_999, y: 6_666 });
    assert_eq!(follow(Vec2 { x: 100_000, y: 0 }, Vec2 { x: 0, y: 0 }), Vec2 { x: 91_667, y: 0 });
}

#[test]
fn follow_reaches_a_near_target() {
    assert_eq!(follow(Vec2 { x: 0, y: 0 }, Vec2 { x: 3_000, y: 4_000 }), Vec2 { x: 3_000, y: 4_000 });
    assert_eq!(follow(Vec2 { x: 0, y: 0 }, Vec2 { x: 0, y: -8_333 }), Vec2 { x: 0, y: -8_333 });
}

#[test]
fn follow_stops_short_of_a_target_out_of_reach() {
    assert_eq!(follow(Vec2 { x: 0, y: 0 }, Vec2 { x: 8_334, y: 0 }), Vec2 { x: 8_333, y: 0 });
}

#[test]
fn follow_stays_on_its_target() {
    assert_eq!(follow(Vec2 { x: 5, y: -5 }, Vec2 { x: 5, y: -5 }), Vec2 { x: 5, y: -5 });
}

#[test]
fn follow_across_the_whole_range() {
    assert_eq!(
        follow(Vec2 { x: i32::MIN, y: i32::MIN }, Vec2 { x: i32::MAX, y: i32::MAX }),
        Vec2 { x: -2_147_477_756, y: -2_147_477_756 }
    );
    assert_eq!(
        follow(Vec2 { x: i32::MAX, y: i32::MIN }, Vec2 { x: i32::MIN, y: i32::MAX }),
        Vec2 { x: 2_147_477_755, y: -2_147_477_756 }
    );
}

#[test]
fn follow_never_passes_its_target() {
    let mut position = Vec2 { x: -250_000, y: 90_000 };
    let target = Vec2 { x: 200_000, y: -130_000 };
    for _ in 0..200 {
        let next = follow(position, target);
        assert!(position.x <= next.x && next.x <= target.x);
        assert!(target.y <= next.y && next.y <= position.y);
        position = next;
    }
    assert_eq!(position, target);
}

#[test]
fn headings_move_the_enemies_alone() {
    let enemy = enemy_bundle(0, 0, orbit());
    let player = player_bundle(&window());
    let mut plain = enemy_bundle(7, 7, orbit());
    plain.formation = None;
    let mut entities = vec![Some(enemy), None, Some(player), Some(plain)];
    let heading = Heading { cos: 1_000_000, sin: 0 };
    follow_headings(&mut entities, &vec![heading; 4]);
    let moved = entities[0].unwrap();
    assert_eq!(moved.transform.translation, Vec2 { x: 8_333, y: 0 });
    assert_eq!(moved.transform.scale, enemy.transform.scale);
    assert_eq!(moved.formation, enemy.formation);
    assert_eq!(entities[1], None);
    assert_eq!(entities[2], Some(player));
    assert_eq!(entities[3], Some(plain));
}

#[test]
fn enemies_without_a_heading_stay() {
    let enemy = enemy_bundle(0, 0, orbit());
    let mut entities = vec![Some(enemy), Some(enemy)];
    follow_headings(&mut entities, &vec![Heading { cos: 0, sin: 1_000_000 }]);
    assert_eq!(entities[0].unwrap().transform.translation, Vec2 { x: 0, y: 8_333 });
    assert_eq!(entities[1], Some(enemy));
}

#[test]
fn headings_are_asked_for_by_phase() {
    let slow = Formation { speed: 60_000, ..orbit() };
    let entities = vec![
        Some(enemy_bundle(0, 0, orbit())),
        None,
        Some(player_bundle(&window())),
        Some(enemy_bundle(0, 0, slow)),
    ];
    let headings =
        enemy_headings(1_000_000, &entities, &|phase: i32| Heading { cos: phase, sin: -phase });
    assert_eq!(
        headings,
        vec![
            Heading { cos: -8_333, sin: 8_333 },
            Heading { cos: 0, sin: 0 },
            Heading { cos: 0, sin: 0 },
            Heading { cos: -1_000, sin: 1_000 },
        ]
    );
}

#[test]
fn enemy_movement_follows_the_orbit() {
    let start = Vec2 { x: 150_000, y: 10_000 };
    let mut entities = vec![Some(enemy_bundle(start.x, start.y, orbit()))];
    let mut position = start;
    for tick in 1..=120u64 {
        let now = tick * 16_667;
        enemy_movement_system(now, &mut entities, &trig);
        let target = orbit_target(orbit(), trig(orbit_phase(500_000, now)));
        let expected = follow(position, target);
        position = entities[0].unwrap().transform.translation;
        assert_eq!(position, expected);
        assert!(position != start);
    }
    let target = orbit_target(orbit(), trig(orbit_phase(500_000, 120 * 16_667)));
    assert!((position.x - target.x).abs() <= MAX_STEP);
    assert!((position.y - target.y).abs() <= MAX_STEP);
}

#[test]
fn spawn_enemy_makes_the_enemy_of_its_draws() {
    let mut commands = Commands::new();
    let mut count = EnemyCount(0);
    let mut maker = FormationMaker::default();
    let draws = EnemyDraws { x: 5_000, y: -7_000, formation: formation_draws() };
    spawn_enemy(&mut commands, &mut count, &mut maker, &window(), &draws);
    assert_eq!(count, EnemyCount(1));
    let formation = Formation::from_draws(&window(), &formation_draws());
    assert_eq!(commands.spawns(), &vec![enemy_bundle(5_000, -7_000, formation)]);
    assert!(commands.despawns().is_empty());
    assert_eq!(maker.current_template, Some(formation));
    assert_eq!(maker.current_members, 1);
}

#[test]
fn enemy_bundle_holds_what_an_enemy_has() {
    let b = enemy_bundle(1, 2, orbit());
    assert_eq!(b.transform.translation, Vec2 { x: 1, y: 2 });
    assert_eq!(b.transform.scale, Vec2 { x: 500, y: 500 });
    assert_eq!(b.sprite_size, Some(SpriteSize(Vec2 { x: 144_000, y: 75_000 })));
    assert_eq!(b.enemy, Some(Enemy));
    assert_eq!(b.formation, Some(orbit()));
    assert_eq!(
        b,
        Bundle {
            transform: b.transform,
            sprite_size: b.sprite_size,
            enemy: Some(Enemy),
            formation: Some(orbit()),
            ..Bundle::bare(b.transform)
        }
    );
}

#[test]
fn spawn_enemy_stops_at_the_cap() {
    let mut commands = Commands::new();
    let mut count = EnemyCount(10);
    let mut maker = FormationMaker::default();
    let draws = EnemyDraws { x: 0, y: 0, formation: formation_draws() };
    spawn_enemy(&mut commands, &mut count, &mut maker, &window(), &draws);
    assert_eq!(count, EnemyCount(10));
    assert!(commands.spawns().is_empty());
    assert_eq!(maker, FormationMaker::default());
}

#[test]
fn enemy_population_cap() {
    let mut commands = Commands::new();
    let mut count = EnemyCount(0);
    let mut maker = FormationMaker::default();
    let mut rng = RandomSource::from_seed(1);
    for second in 1..=20u32 {
        enemy_spawn_system(&mut commands, &mut count, &mut maker, &window(), &mut rng);
        assert!(count.0 <= 10);
        assert_eq!(count.0, second.min(10));
        assert_eq!(commands.spawns().len() as u32, count.0);
    }
    assert_eq!(count, EnemyCount(10));
}

#[test]
fn random_enemies_appear_inside_the_margin() {
    let mut commands = Commands::new();
    let mut maker = FormationMaker::default();
    let mut rng = RandomSource::from_seed(2);
    for _ in 0..300 {
        let mut count = EnemyCount(0);
        enemy_spawn_system(&mut commands, &mut count, &mut maker, &window(), &mut rng);
    }
    assert_eq!(commands.spawns().len(), 300);
    let mut xs = std::collections::BTreeSet::new();
    for b in commands.spawns() {
        let at = b.transform.translation;
        assert!(-199_000 <= at.x && at.x < 199_000);
        assert!(-238_000 <= at.y && at.y < 238_000);
        assert_eq!(b.enemy, Some(Enemy));
        assert!(b.formation.is_some());
        xs.insert(at.x);
    }
    assert!(xs.len() > 250);
}

#[test]
fn random_enemies_share_formations_in_pairs() {
    let mut commands = Commands::new();
    let mut count = EnemyCount(0);
    let mut maker = FormationMaker::default();
    let mut rng = RandomSource::from_seed(3);
    for _ in 0..4 {
        enemy_spawn_system(&mut commands, &mut count, &mut maker, &window(), &mut rng);
    }
    let spawns = commands.spawns();
    assert_eq!(spawns[0].formation, spawns[1].formation);
    assert_eq!(spawns[2].formation, spawns[3].formation);
    assert_ne!(spawns[1].formation, spawns[2].formation);
}

#[test]
fn enemy_fire_criteria_fires_now_and_then() {
    let mut rng = RandomSource::from_seed(4);
    let mut fired = 0;
    for _ in 0..6000 {
        if enemy_fire_criteria(&mut rng) {
            fired += 1;
        }
    }
    assert!(fired > 40, "{} volleys", fired);
    assert!(fired < 200, "{} volleys", fired);
}

#[test]
fn enemy_laser_holds_what_a_laser_has() {
    let b = enemy_laser(3, 4);
    assert_eq!(b.transform.translation, Vec2 { x: 3, y: 4 });
    assert_eq!(b.transform.scale, Vec2 { x: 500, y: 500 });
    assert_eq!(b.sprite_size, Some(SpriteSize(Vec2 { x: 17_000, y: 55_000 })));
    assert_eq!(b.velocity, Some(Velocity { x: 0, y: -1000 }));
    assert_eq!(b.movable, Some(Movable { auto_despawn: true }));
    assert_eq!(b.laser, Some(Laser));
    assert_eq!(b.from_enemy, Some(FromEnemy));
    assert!(b.enemy.is_none() && b.player.is_none() && b.from_player.is_none());
}

#[test]
fn every_enemy_fires_one_laser_downward() {
    let entities = vec![
        Some(enemy_bundle(10_000, 20_000, orbit())),
        None,
        Some(player_bundle(&window())),
        Some(enemy_bundle(-5, i32::MIN + 3, orbit())),
    ];
    let mut commands = Commands::new();
    let mut audio = Audio::new();
    enemy_fire_system(&mut commands, &mut audio, &entities);
    assert_eq!(commands.spawns(), &vec![enemy_laser(10_000, 5_000), enemy_laser(-5, i32::MIN)]);
    assert!(commands.despawns().is_empty());
    assert_eq!(audio.cues(), &vec![AudioCue::EnemyLaserFired]);
}

#[test]
fn no_enemy_no_volley() {
    let entities = vec![None, Some(player_bundle(&window()))];
    let mut commands = Commands::new();
    let mut audio = Audio::new();
    enemy_fire_system(&mut commands, &mut audio, &entities);
    assert!(commands.spawns().is_empty());
    assert!(audio.cues().is_empty());
}
