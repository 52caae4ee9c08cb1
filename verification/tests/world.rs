use space_invaders::commands::AudioCue;
use space_invaders::commands::Entity;
use space_invaders::components::Bundle;
use space_invaders::components::TextureAtlasSprite;
use space_invaders::components::Vec2;
use space_invaders::enemy::enemy_bundle;
use space_invaders::enemy::enemy_laser;
use space_invaders::enemy::formation::Formation;
use space_invaders::enemy::formation::FormationDraws;
use space_invaders::enemy::formation::FormationMaker;
use space_invaders::enemy::EnemyDraws;
use space_invaders::enemy::Heading;
use space_invaders::explosion::explosion;
use space_invaders::explosion::explosion_request;
use space_invaders::player::player_bundle;
use space_invaders::player::player_laser;
use space_invaders::store::count_craft;
use space_invaders::store::Craft;
use space_invaders::world::TickDraws;
use space_invaders::world::World;
use space_invaders::AppState;
use space_invaders::GameState;
use space_invaders::Input;
use space_invaders::PlayerState;
use space_invaders::WinSize;

const TICK: u64 = 16_667;

fn window() -> WinSize {
    WinSize { width: 598_000, height: 676_000 }
}

fn idle() -> Input {
    Input { move_left: false, move_right: false, fire: false, toggle_pause: false }
}

fn formation_draws() -> FormationDraws {
    FormationDraws { right_edge: true, start_y: 1, pivot_x: 2, pivot_y: 3, radius_x: 80_000 }
}

fn enemy_at(x: i32, y: i32) -> TickDraws {
    TickDraws { enemy_fire: false, enemy: EnemyDraws { x, y, formation: formation_draws() } }
}

fn trig(phase: i32) -> Heading {
    let angle = phase as f64 / 1000.0 / std::f64::consts::PI;
    Heading {
        cos: (angle.cos() * 1_000_000.0).round() as i32,
        sin: (angle.sin() * 1_000_000.0).round() as i32,
    }
}

fn living(world: &World) -> Vec<Bundle> {
    world.entities().iter().filter_map(|slot| *slot).collect()
}

#[test]
fn a_world_needs_room_for_enemies() {
    assert!(World::new(WinSize { width: 200_001, height: 676_000 }, 0).is_none());
    assert!(World::new(WinSize { width: 598_000, height: 200_001 }, 0).is_none());
    assert!(World::new(WinSize { width: 0, height: 0 }, 0).is_none());
    assert!(World::new(WinSize { width: -598_000, height: -676_000 }, 0).is_none());
    assert!(World::new(WinSize { width: 200_002, height: 200_002 }, 0).is_some());
    assert!(World::is_playable(&window()));
}

#[test]
fn a_new_world_is_empty_and_running() {
    let world = World::new(window(), 0).unwrap();
    assert!(world.entities().is_empty());
    assert_eq!(world.win_size(), window());
    assert_eq!(world.enemy_count(), 0);
    assert_eq!(world.player_state(), PlayerState { on: false, last_shot: None });
    assert_eq!(world.game_state(), GameState { score: 0 });
    assert_eq!(world.app_state(), AppState::InGame);
    assert_eq!(world.formation_maker(), FormationMaker::default());
    assert_eq!(world.get(Entity(0)), None);
}

#[test]
fn the_player_spawns_after_half_a_second() {
    let mut world = World::new(window(), 0).unwrap();
    for tick in 1..=29 {
        world.step(&idle(), tick * TICK, TICK, &enemy_at(0, 0), &vec![]);
        assert!(world.entities().is_empty());
    }
    world.step(&idle(), 30 * TICK, TICK, &enemy_at(0, 0), &vec![]);
    assert_eq!(world.entities(), &vec![Some(player_bundle(&window()))]);
    assert!(world.player_state().is_alive());
    assert_eq!(world.get(Entity(0)), Some(player_bundle(&window())));
}

#[test]
fn enemies_spawn_once_a_second_up_to_the_cap() {
    let mut world = World::new(window(), 0).unwrap();
    let mut spawned = 0;
    for tick in 1..=1200u64 {
        let draws = enemy_at(tick as i32, -(tick as i32));
        world.step(&idle(), tick * TICK, TICK, &draws, &vec![]);
        let enemies = count_craft(world.entities(), Craft::Enemy);
        assert!(enemies <= 10);
        assert_eq!(enemies as u32, world.enemy_count());
        assert!(enemies >= spawned);
        spawned = enemies;
        assert_eq!(enemies as u64, (tick * TICK / 1_000_000).min(10));
        assert!(count_craft(world.entities(), Craft::Player) <= 1);
    }
    assert_eq!(world.enemy_count(), 10);
    // the first enemy appeared with the tick that completed the first second
    let first = living(&world).into_iter().find(|b| b.enemy.is_some()).unwrap();
    assert_eq!(first.transform.translation, Vec2 { x: 60, y: -60 });
}

#[test]
fn enemy_population_cap_in_a_random_world() {
    let mut world = World::new(window(), 7).unwrap();
    for tick in 1..=1200u64 {
        world.tick(&idle(), tick * TICK, TICK, &trig);
        let enemies = count_craft(world.entities(), Craft::Enemy);
        assert!(enemies <= 10);
        assert_eq!(enemies as u32, world.enemy_count());
        assert!(count_craft(world.entities(), Craft::Player) <= 1);
    }
    assert!(world.enemy_count() > 0);
}

#[test]
fn enemies_share_formations_in_pairs() {
    let mut world = World::new(window(), 0).unwrap();
    for second in 1..=4 {
        let draws = TickDraws {
            enemy_fire: false,
            enemy: EnemyDraws {
                x: second,
                y: 0,
                formation: FormationDraws { start_y: second, ..formation_draws() },
            },
        };
        world.step(&idle(), second as u64 * 1_000_000, 1_000_000, &draws, &vec![]);
    }
    let enemies: Vec<Bundle> = living(&world).into_iter().filter(|b| b.enemy.is_some()).collect();
    assert_eq!(enemies.len(), 4);
    assert_eq!(enemies[0].formation, enemies[1].formation);
    assert_eq!(enemies[2].formation, enemies[3].formation);
    assert_ne!(enemies[1].formation, enemies[2].formation);
    let first = Formation::from_draws(&window(), &FormationDraws { start_y: 1, ..formation_draws() });
    assert_eq!(enemies[0], enemy_bundle(1, 0, first));
}

#[test]
fn the_same_seed_gives_the_same_game() {
    let mut first = World::new(window(), 99).unwrap();
    let mut second = World::new(window(), 99).unwrap();
    for tick in 1..=600u64 {
        let input = Input { fire: tick % 20 == 0, move_left: tick % 90 < 45, ..idle() };
        let one = first.tick(&input, tick * TICK, TICK, &trig);
        let two = second.tick(&input, tick * TICK, TICK, &trig);
        assert_eq!(one, two);
        assert_eq!(first.entities(), second.entities());
    }
    assert_eq!(first.game_state(), second.game_state());
    assert!(first.enemy_count() > 0);
}

#[test]
fn other_seeds_give_other_games() {
    let mut first = World::new(window(), 1).unwrap();
    let mut second = World::new(window(), 2).unwrap();
    for tick in 1..=120u64 {
        first.tick(&idle(), tick * TICK, TICK, &trig);
        second.tick(&idle(), tick * TICK, TICK, &trig);
    }
    assert_ne!(first.entities(), second.entities());
}

#[test]
fn a_paused_world_stands_still() {
    let mut world = World::new(window(), 0).unwrap();
    for tick in 1..=100u64 {
        world.step(&idle(), tick * TICK, TICK, &enemy_at(0, 0), &vec![]);
    }
    let pause = Input { toggle_pause: true, fire: true, ..idle() };
    world.step(&pause, 101 * TICK, TICK, &enemy_at(0, 0), &vec![]);
    assert_eq!(world.app_state(), AppState::Paused);
    let entities = world.entities().clone();
    let enemies = world.enemy_count();
    assert!(!entities.is_empty());
    let busy = Input { move_left: true, fire: true, ..idle() };
    let fire = TickDraws { enemy_fire: true, ..enemy_at(5, 5) };
    for tick in 102..=400u64 {
        let cues = world.step(&busy, tick * TICK, TICK, &fire, &vec![]);
        assert!(cues.is_empty());
        assert_eq!(world.entities(), &entities);
        assert_eq!(world.enemy_count(), enemies);
        assert_eq!(world.app_state(), AppState::Paused);
    }
    world.step(&Input { toggle_pause: true, ..idle() }, 401 * TICK, TICK, &fire, &vec![]);
    assert_eq!(world.app_state(), AppState::InGame);
    assert_eq!(world.entities(), &entities);
    let cues = world.step(&busy, 402 * TICK, TICK, &fire, &vec![]);
    assert_ne!(world.entities(), &entities);
    assert!(cues.contains(&AudioCue::PlayerLaserFired));
    assert!(cues.contains(&AudioCue::EnemyLaserFired));
}

#[test]
fn the_timers_do_not_run_while_paused() {
    let mut world = World::new(window(), 0).unwrap();
    world.step(&Input { toggle_pause: true, ..idle() }, 400_000, 400_000, &enemy_at(0, 0), &vec![]);
    assert_eq!(world.app_state(), AppState::Paused);
    world.step(&Input { toggle_pause: true, ..idle() }, 800_000, 400_000, &enemy_at(0, 0), &vec![]);
    assert_eq!(world.app_state(), AppState::InGame);
    assert!(world.entities().is_empty());
    // 400 ms before the pause and 100 ms now make up half a second
    world.step(&idle(), 900_000, 100_000, &enemy_at(0, 0), &vec![]);
    assert_eq!(world.entities().len(), 1);
}

#[test]
fn only_what_is_no_craft_is_inserted() {
    let mut world = World::new(window(), 0).unwrap();
    assert_eq!(world.insert(player_bundle(&window())), None);
    assert_eq!(world.insert(enemy_bundle(0, 0, Formation::from_draws(&window(), &formation_draws()))), None);
    assert!(world.entities().is_empty());
    assert_eq!(world.insert(enemy_laser(1, 2)), Some(Entity(0)));
    assert_eq!(world.insert(player_laser(3, 4)), Some(Entity(1)));
    assert_eq!(world.entities(), &vec![Some(enemy_laser(1, 2)), Some(player_laser(3, 4))]);
    assert_eq!(world.get(Entity(1)), Some(player_laser(3, 4)));
    assert_eq!(world.get(Entity(2)), None);
}

#[test]
fn empty_slots_are_filled_first() {
    let mut world = World::new(window(), 0).unwrap();
    world.insert(explosion_request(Vec2 { x: 1, y: 1 }));
    world.insert(enemy_laser(0, 0));
    world.insert(explosion_request(Vec2 { x: 2, y: 2 }));
    // the requests leave slots 0 and 2, and their explosions take them
    world.step(&idle(), TICK, TICK, &enemy_at(0, 0), &vec![]);
    assert_eq!(
        world.entities(),
        &vec![
            Some(explosion(Vec2 { x: 1, y: 1 })),
            Some(enemy_laser(0, -8_333)),
            Some(explosion(Vec2 { x: 2, y: 2 })),
        ]
    );
}

#[test]
fn a_laser_that_leaves_the_play_area_is_gone_after_the_tick() {
    let mut world = World::new(window(), 0).unwrap();
    world.insert(player_laser(0, 538_000 - 8_333));
    world.step(&idle(), TICK, TICK, &enemy_at(0, 0), &vec![]);
    assert_eq!(world.entities(), &vec![Some(player_laser(0, 538_000))]);
    world.step(&idle(), 2 * TICK, TICK, &enemy_at(0, 0), &vec![]);
    assert_eq!(world.entities(), &vec![None]);
}

#[test]
fn the_player_shoots_an_enemy() {
    let mut world = World::new(window(), 0).unwrap();
    // one second: the player is there, and an enemy at the origin
    world.step(&idle(), 1_000_000, 1_000_000, &enemy_at(0, 0), &vec![]);
    assert_eq!(world.enemy_count(), 1);
    assert!(world.player_state().is_alive());
    let fire = Input { fire: true, ..idle() };
    let cues = world.step(&fire, 1_000_000 + TICK, TICK, &enemy_at(0, 0), &vec![]);
    assert_eq!(cues, vec![AudioCue::PlayerLaserFired]);
    assert_eq!(
        living(&world)[2..],
        [player_laser(-31_000, -299_250), player_laser(31_000, -299_250)]
    );
    // the lasers rise by 8333 a tick from -299250, and reach the enemy,
    // which is 32250 high for them, with the 33rd tick
    for tick in 1..=32u64 {
        let cues = world.step(&idle(), 1_000_000 + (1 + tick) * TICK, TICK, &enemy_at(0, 0), &vec![]);
        assert!(cues.is_empty());
        assert_eq!(world.enemy_count(), 1);
        assert_eq!(world.game_state().score, 0);
    }
    let cues = world.step(&idle(), 1_000_000 + 34 * TICK, TICK, &enemy_at(0, 0), &vec![]);
    assert_eq!(cues, vec![AudioCue::EnemyExploded]);
    assert_eq!(world.enemy_count(), 0);
    assert_eq!(world.game_state().score, 5);
    assert_eq!(count_craft(world.entities(), Craft::Enemy), 0);
    // the left laser hit and is gone with the enemy; the right one flies on
    let left = living(&world);
    assert_eq!(left.len(), 3);
    assert_eq!(left[0], player_bundle(&window()));
    assert!(left.contains(&explosion_request(Vec2 { x: 0, y: 0 })));
    assert!(left.contains(&player_laser(31_000, -299_250 + 33 * 8_333)));
    // the request becomes an explosion with the next tick
    world.step(&idle(), 1_000_000 + 35 * TICK, TICK, &enemy_at(0, 0), &vec![]);
    let left = living(&world);
    assert!(left.contains(&explosion(Vec2 { x: 0, y: 0 })));
    assert!(!left.contains(&explosion_request(Vec2 { x: 0, y: 0 })));
}

#[test]
fn an_explosion_plays_and_leaves() {
    let mut world = World::new(window(), 0).unwrap();
    let entity = world.insert(explosion(Vec2 { x: 0, y: 0 })).unwrap();
    for frame in 1..=15 {
        world.step(&idle(), frame as u64 * 50_000, 50_000, &enemy_at(0, 0), &vec![]);
        let sprite = world.get(entity).unwrap().sprite;
        assert_eq!(sprite, Some(TextureAtlasSprite { index: frame }));
    }
    world.step(&idle(), 800_000, 50_000, &enemy_at(0, 0), &vec![]);
    assert_eq!(world.get(entity), None);
}

#[test]
fn damage_accumulation_in_the_world() {
    let mut world = World::new(window(), 0).unwrap();
    world.step(&idle(), 500_000, 500_000, &enemy_at(0, 0), &vec![]);
    let player = Entity(0);
    let at = world.get(player).unwrap().transform.translation;
    let mut now = 500_000;
    for k in 1..=9 {
        world.insert(enemy_laser(at.x, at.y));
        now += TICK;
        let cues = world.step(&idle(), now, TICK, &enemy_at(0, 0), &vec![]);
        assert_eq!(cues, vec![AudioCue::PlayerHit]);
        assert_eq!(world.get(player).unwrap().attributes.unwrap().health, 100 - 10 * k);
        assert_eq!(living(&world).len(), 1);
        assert!(world.player_state().is_alive());
    }
    world.insert(enemy_laser(at.x, at.y));
    now += TICK;
    let cues = world.step(&idle(), now, TICK, &enemy_at(0, 0), &vec![]);
    assert_eq!(cues, vec![AudioCue::PlayerExploded]);
    assert_eq!(world.player_state(), PlayerState { on: false, last_shot: Some(now) });
    assert_eq!(living(&world), vec![explosion_request(at)]);
    assert_eq!(count_craft(world.entities(), Craft::Player), 0);
    let died = now;
    // the player comes back with the first spawn check two seconds later
    let mut back = None;
    while back.is_none() {
        now += TICK;
        world.step(&idle(), now, TICK, &enemy_at(0, 0), &vec![]);
        if world.player_state().is_alive() {
            back = Some(now);
        } else {
            assert_eq!(count_craft(world.entities(), Craft::Player), 0);
        }
    }
    let back = back.unwrap();
    assert!(back >= died + 2_000_000);
    assert!(back < died + 2_500_000 + TICK);
    assert_eq!(count_craft(world.entities(), Craft::Player), 1);
    let again = living(&world).into_iter().find(|b| b.player.is_some()).unwrap();
    assert_eq!(again, player_bundle(&window()));
}

#[test]
fn enemies_fire_when_the_draw_says_so() {
    let mut world = World::new(window(), 0).unwrap();
    world.step(&idle(), 1_000_000, 1_000_000, &enemy_at(50_000, 100_000), &vec![]);
    let volley = TickDraws { enemy_fire: true, ..enemy_at(0, 0) };
    let cues = world.step(&idle(), 1_000_000 + TICK, TICK, &volley, &vec![]);
    assert_eq!(cues, vec![AudioCue::EnemyLaserFired]);
    assert!(living(&world).contains(&enemy_laser(50_000, 85_000)));
    let cues = world.step(&idle(), 1_000_000 + 2 * TICK, TICK, &enemy_at(0, 0), &vec![]);
    assert!(cues.is_empty());
    assert!(living(&world).contains(&enemy_laser(50_000, 85_000 - 8_333)));
}

#[test]
fn enemies_follow_the_headings_given() {
    let mut world = World::new(window(), 0).unwrap();
    world.step(&idle(), 1_000_000, 1_000_000, &enemy_at(0, 0), &vec![]);
    let slot = world.entities().iter().position(|s| s.map_or(false, |b| b.enemy.is_some())).unwrap();
    let mut headings = vec![Heading { cos: 0, sin: 0 }; world.entities().len()];
    // pivot (2, 3), radius (80000, 100000): the target at angle zero is (80002, 3)
    headings[slot] = Heading { cos: 1_000_000, sin: 0 };
    world.step(&idle(), 1_000_000 + TICK, TICK, &enemy_at(0, 0), &headings);
    let enemy = world.get(Entity(slot)).unwrap();
    assert_eq!(enemy.transform.translation, Vec2 { x: 8_333, y: 0 });
    for tick in 2..=12u64 {
        world.step(&idle(), 1_000_000 + tick * TICK, TICK, &enemy_at(0, 0), &headings);
    }
    assert_eq!(world.get(Entity(slot)).unwrap().transform.translation, Vec2 { x: 80_002, y: 3 });
}

#[test]
fn the_keys_move_the_player() {
    let mut world = World::new(window(), 0).unwrap();
    world.step(&idle(), 500_000, 500_000, &enemy_at(0, 0), &vec![]);
    let left = Input { move_left: true, ..idle() };
    world.step(&left, 500_000 + TICK, TICK, &enemy_at(0, 0), &vec![]);
    assert_eq!(world.get(Entity(0)).unwrap().transform.translation, Vec2 { x: -8_333, y: -314_250 });
    let right = Input { move_right: true, ..idle() };
    world.step(&right, 500_000 + 2 * TICK, TICK, &enemy_at(0, 0), &vec![]);
    world.step(&right, 500_000 + 3 * TICK, TICK, &enemy_at(0, 0), &vec![]);
    assert_eq!(world.get(Entity(0)).unwrap().transform.translation, Vec2 { x: 8_333, y: -314_250 });
    world.step(&idle(), 500_000 + 4 * TICK, TICK, &enemy_at(0, 0), &vec![]);
    assert_eq!(world.get(Entity(0)).unwrap().transform.translation, Vec2 { x: 8_333, y: -314_250 });
}

#[test]
fn time_spent_paused_counts_toward_the_respawn() {
    let mut world = World::new(window(), 0).unwrap();
    world.step(&idle(), 500_000, 500_000, &enemy_at(0, 0), &vec![]);
    let at = world.get(Entity(0)).unwrap().transform.translation;
    let mut now = 500_000;
    for _ in 0..10 {
        world.insert(enemy_laser(at.x, at.y));
        now += TICK;
        world.step(&idle(), now, TICK, &enemy_at(0, 0), &vec![]);
    }
    assert_eq!(world.player_state(), PlayerState { on: false, last_shot: Some(now) });
    let died = now;
    // pause at once, and stay paused for three seconds
    let pause = Input { toggle_pause: true, ..idle() };
    now += TICK;
    world.step(&pause, now, TICK, &enemy_at(0, 0), &vec![]);
    assert!(!world.player_state().is_alive());
    assert_eq!(world.app_state(), AppState::Paused);
    for _ in 0..180 {
        now += TICK;
        world.step(&idle(), now, TICK, &enemy_at(0, 0), &vec![]);
        assert!(!world.player_state().is_alive());
    }
    world.step(&pause, now, 0, &enemy_at(0, 0), &vec![]);
    assert_eq!(world.app_state(), AppState::InGame);
    // the delay has passed meanwhile: the next spawn check brings the player back
    let resumed = now;
    while !world.player_state().is_alive() {
        now += TICK;
        world.step(&idle(), now, TICK, &enemy_at(0, 0), &vec![]);
        assert!(now - resumed <= 500_000 + TICK);
    }
    assert!(now - died > 3_000_000);
    assert_eq!(world.player_health(), Some(100));
}

#[test]
fn the_health_of_the_player_is_told() {
    let mut world = World::new(window(), 0).unwrap();
    assert_eq!(world.player_health(), None);
    world.step(&idle(), 500_000, 500_000, &enemy_at(0, 0), &vec![]);
    assert_eq!(world.player_health(), Some(100));
    let at = world.get(Entity(0)).unwrap().transform.translation;
    world.insert(enemy_laser(at.x, at.y));
    world.step(&idle(), 500_000 + TICK, TICK, &enemy_at(0, 0), &vec![]);
    assert_eq!(world.player_health(), Some(90));
}

#[test]
fn a_pause_leaves_the_random_draws_where_they_were() {
    let mut straight = World::new(window(), 5).unwrap();
    let mut paused = World::new(window(), 5).unwrap();
    for tick in 1..=300u64 {
        straight.tick(&idle(), tick * TICK, TICK, &trig);
        let input = Input { toggle_pause: tick == 300, ..idle() };
        paused.tick(&input, tick * TICK, TICK, &trig);
    }
    assert_eq!(paused.app_state(), AppState::Paused);
    for tick in 301..=500u64 {
        paused.tick(&idle(), tick * TICK, TICK, &trig);
    }
    paused.tick(&Input { toggle_pause: true, ..idle() }, 500 * TICK, TICK, &trig);
    assert_eq!(paused.app_state(), AppState::InGame);
    assert_eq!(straight.entities(), paused.entities());
    for tick in 301..=900u64 {
        let one = straight.tick(&idle(), tick * TICK, TICK, &trig);
        let two = paused.tick(&idle(), tick * TICK, TICK, &trig);
        assert_eq!(one, two);
        assert_eq!(straight.entities(), paused.entities());
    }
    assert!(straight.enemy_count() > 0);
}
