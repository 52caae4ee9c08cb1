//! Enemy craft: spawning, firing, and movement along the orbit of their
//! formation.
use vstd::prelude::*;
use crate::commands::Audio;
use crate::commands::AudioCue;
use crate::commands::Commands;
use crate::components::Bundle;
use crate::components::Enemy;
use crate::components::FromEnemy;
use crate::components::Laser;
use crate::components::Movable;
use crate::components::SpriteSize;
use crate::components::Transform;
use crate::components::Vec2;
use crate::components::Velocity;
use crate::enemy::formation::Formation;
use crate::enemy::formation::FormationDraws;
use crate::enemy::formation::FormationMaker;
use crate::fixed::distance;
use crate::fixed::div_trunc;
use crate::fixed::length;
use crate::fixed::rem_trunc;
use crate::fixed::saturate;
use crate::fixed::saturate_i64;
use crate::random::RandomSource;
use crate::EnemyCount;
use crate::WinSize;
use crate::ENEMY_LASER_SIZE;
use crate::ENEMY_SIZE;
use crate::MAX_ENEMY_COUNT;
use crate::SPRITE_SCALE;
use crate::TICKS_PER_SECOND;

pub mod formation;

verus! {

/// Width of the band along each edge of the play area in which no enemy is
/// spawned.
pub const ENEMY_SPAWN_MARGIN: i32 = 100_000;

/// Depth below the centre of an enemy at which its laser starts.
pub const ENEMY_LASER_DROP: i32 = 15_000;

/// One enemy volley is fired in `ENEMY_FIRE_ODDS` ticks, on average.
pub const ENEMY_FIRE_ODDS: u32 = 60;

/// Sense in which enemies go round their orbit: clockwise.
pub const ORBIT_DIRECTION: i32 = -1;

/// Farthest that an enemy moves in one tick: what is covered at base speed.
pub const MAX_STEP: i32 = 8_333;

/// The value one of a cosine or sine.
pub const TRIG_ONE: i32 = 1_000_000;

/// A whole turn of the orbit phase.
pub const PHASE_TURN: i32 = 360_000;

/// Cosine and sine of an angle, in millionths.
#[derive(Clone, Copy, Debug, PartialEq, Eq)]
pub struct Heading {
    pub cos: i32,
    pub sin: i32,
}

/// The phase of an orbit of angular speed `speed` at the time `now`, in
/// thousandths: direction, speed, time step and time multiplied, rounded
/// toward zero, and the remainder by a whole turn taken. The angle at which
/// the orbit stands is this phase divided by pi.
pub open spec fn spec_orbit_phase(speed: i32, now: u64) -> int {
    rem_trunc(
        div_trunc(ORBIT_DIRECTION * speed * now, TICKS_PER_SECOND * 1_000_000),
        PHASE_TURN as int,
    )
}

/// Computes the phase of an orbit of angular speed `speed` at `now`. It
/// lies within one turn of zero.
pub fn orbit_phase(speed: i32, now: u64) -> (phase: i32)
    ensures
        phase == spec_orbit_phase(speed, now),
        -PHASE_TURN < phase < PHASE_TURN,
{
    let s: i128 = (ORBIT_DIRECTION as i128) * (speed as i128);
    let t: i128 = now as i128;
    assert(-0x8000_0000_0000_0000_0000_0000 <= s * t <= 0x8000_0000_0000_0000_0000_0000)
        by (nonlinear_arith)
        requires
            -0x8000_0000 <= s <= 0x8000_0000,
            0 <= t <= 0x1_0000_0000_0000_0000,
    ;
    assert(ORBIT_DIRECTION * speed * now == s * t) by (nonlinear_arith)
        requires
            s == ORBIT_DIRECTION * speed,
            t == now,
    ;
    let turns: i128 = s * t / ((TICKS_PER_SECOND as i128) * 1_000_000);
    (turns % (PHASE_TURN as i128)) as i32
}

/// The point of the orbit of `formation` at the angle of `heading`.
pub open spec fn spec_orbit_target(formation: Formation, heading: Heading) -> Vec2 {
    Vec2 {
        x: saturate(
            div_trunc(formation.radius.0 * heading.cos, TRIG_ONE as int) + formation.pivot.0,
        ) as i32,
        y: saturate(
            div_trunc(formation.radius.1 * heading.sin, TRIG_ONE as int) + formation.pivot.1,
        ) as i32,
    }
}

#[verifier::when_used_as_spec(spec_orbit_target)]
pub fn orbit_target(formation: Formation, heading: Heading) -> (target: Vec2)
    ensures
        target == spec_orbit_target(formation, heading),
{
    let rx: i64 = formation.radius.0 as i64;
    let ry: i64 = formation.radius.1 as i64;
    let c: i64 = heading.cos as i64;
    let s: i64 = heading.sin as i64;
    assert(-0x4000_0000_0000_0000 <= rx * c <= 0x4000_0000_0000_0000) by (nonlinear_arith)
        requires
            -0x8000_0000 <= rx <= 0x8000_0000,
            -0x8000_0000 <= c <= 0x8000_0000,
    ;
    assert(-0x4000_0000_0000_0000 <= ry * s <= 0x4000_0000_0000_0000) by (nonlinear_arith)
        requires
            -0x8000_0000 <= ry <= 0x8000_0000,
            -0x8000_0000 <= s <= 0x8000_0000,
    ;
    Vec2 {
        x: saturate_i64(rx * c / (TRIG_ONE as i64) + formation.pivot.0 as i64),
        y: saturate_i64(ry * s / (TRIG_ONE as i64) + formation.pivot.1 as i64),
    }
}

/// One coordinate after a step from `org` toward `dst`, the target being at
/// the distance `dist`: the coordinate moves by its share of `MAX_STEP`,
/// and stops at `dst` rather than pass it. At distance zero it stays.
pub open spec fn approach(org: int, dst: int, dist: int) -> int {
    let d = org - dst;
    let moved = if dist == 0 {
        org
    } else {
        org - div_trunc(d * MAX_STEP, dist)
    };
    if d > 0 {
        if moved > dst {
            moved
        } else {
            dst
        }
    } else {
        if moved < dst {
            moved
        } else {
            dst
        }
    }
}

/// A step toward the target never leaves the interval between where the
/// coordinate is and where it is headed.
pub proof fn lemma_approach_between(org: int, dst: int, dist: int)
    requires
        dist >= 0,
    ensures
        org >= dst ==> dst <= approach(org, dst, dist) <= org,
        org <= dst ==> org <= approach(org, dst, dist) <= dst,
{
    let d = org - dst;
    if dist > 0 {
        if d > 0 {
            assert(d * MAX_STEP >= 0) by (nonlinear_arith)
                requires
                    d > 0,
            ;
            assert((d * MAX_STEP) / dist >= 0) by (nonlinear_arith)
                requires
                    d * MAX_STEP >= 0,
                    dist > 0,
            ;
        } else {
            assert(-(d * MAX_STEP) >= 0) by (nonlinear_arith)
                requires
                    d <= 0,
            ;
            assert((-(d * MAX_STEP)) / dist >= 0) by (nonlinear_arith)
                requires
                    -(d * MAX_STEP) >= 0,
                    dist > 0,
            ;
        }
    }
}

/// A target no farther than `MAX_STEP` is reached in one step.
pub proof fn lemma_approach_arrives(org: int, dst: int, dist: int)
    requires
        0 < dist <= MAX_STEP,
    ensures
        approach(org, dst, dist) == dst,
{
    let d = org - dst;
    if d > 0 {
        assert((d * MAX_STEP) / dist >= d) by (nonlinear_arith)
            requires
                d > 0,
                0 < dist <= MAX_STEP,
        ;
    } else if d < 0 {
        assert((-(d * MAX_STEP)) / dist >= -d) by (nonlinear_arith)
            requires
                d < 0,
                0 < dist <= MAX_STEP,
        ;
    }
}

/// The position after one step from `position` toward `target`.
pub open spec fn spec_follow(position: Vec2, target: Vec2) -> Vec2 {
    let dist = length(position.x - target.x, position.y - target.y) as int;
    Vec2 {
        x: approach(position.x as int, target.x as int, dist) as i32,
        y: approach(position.y as int, target.y as int, dist) as i32,
    }
}

/// One coordinate of a step toward the target.
fn approach_axis(org: i32, dst: i32, dist: u64) -> (r: i32)
    requires
        dist <= 0x2_0000_0000,
    ensures
        r == approach(org as int, dst as int, dist as int),
{
    let d: i64 = org as i64 - dst as i64;
    proof {
        lemma_approach_between(org as int, dst as int, dist as int);
    }
    let moved: i64 = if dist == 0 {
        org as i64
    } else {
        assert(-0x4000_0000_0000 <= d * MAX_STEP <= 0x4000_0000_0000) by (nonlinear_arith)
            requires
                -0x1_0000_0000 <= d <= 0x1_0000_0000,
        ;
        let share: i64 = d * (MAX_STEP as i64) / (dist as i64);
        assert(-0x4000_0000_0000 <= share <= 0x4000_0000_0000) by (nonlinear_arith)
            requires
                -0x4000_0000_0000 <= d * MAX_STEP <= 0x4000_0000_0000,
                dist > 0,
                share == div_trunc(d * MAX_STEP, dist as int),
        ;
        org as i64 - share
    };
    let r: i64 = if d > 0 {
        if moved > dst as i64 {
            moved
        } else {
            dst as i64
        }
    } else {
        if moved < dst as i64 {
            moved
        } else {
            dst as i64
        }
    };
    r as i32
}

/// Steps from `position` toward `target`.
#[verifier::when_used_as_spec(spec_follow)]
pub fn follow(position: Vec2, target: Vec2) -> (next: Vec2)
    ensures
        next == spec_follow(position, target),
{
    let dx: i64 = position.x as i64 - target.x as i64;
    let dy: i64 = position.y as i64 - target.y as i64;
    let dist = distance(dx, dy);
    proof {
        let n = dx * dx + dy * dy;
        assert(0 <= n <= 0x2_0000_0000_0000_0000) by (nonlinear_arith)
            requires
                n == dx * dx + dy * dy,
                -0x1_0000_0000 <= dx <= 0x1_0000_0000,
                -0x1_0000_0000 <= dy <= 0x1_0000_0000,
        ;
        crate::fixed::lemma_sqrt_floor(n as nat);
        assert(dist <= 0x2_0000_0000) by (nonlinear_arith)
            requires
                dist * dist <= n,
                n <= 0x2_0000_0000_0000_0000,
                dist >= 0,
        ;
    }
    Vec2 { x: approach_axis(position.x, target.x, dist), y: approach_axis(position.y, target.y, dist) }
}

/// A step ends between the position and the target, on each axis.
pub proof fn lemma_follow_between(position: Vec2, target: Vec2)
    ensures
        position.x >= target.x ==> target.x <= spec_follow(position, target).x <= position.x,
        position.x <= target.x ==> position.x <= spec_follow(position, target).x <= target.x,
        position.y >= target.y ==> target.y <= spec_follow(position, target).y <= position.y,
        position.y <= target.y ==> position.y <= spec_follow(position, target).y <= target.y,
{
    let dist = length(position.x - target.x, position.y - target.y) as int;
    lemma_approach_between(position.x as int, target.x as int, dist);
    lemma_approach_between(position.y as int, target.y as int, dist);
}

/// An enemy that is no farther than `MAX_STEP` from its target reaches it,
/// and one that is on its target stays there.
pub proof fn lemma_follow_arrives(position: Vec2, target: Vec2)
    requires
        length(position.x - target.x, position.y - target.y) <= MAX_STEP,
    ensures
        spec_follow(position, target) == target,
{
    let dist = length(position.x - target.x, position.y - target.y) as int;
    crate::fixed::lemma_length_zero(position.x - target.x, position.y - target.y);
    if dist > 0 {
        lemma_approach_arrives(position.x as int, target.x as int, dist);
        lemma_approach_arrives(position.y as int, target.y as int, dist);
    }
}

/// The slot after the enemies have moved: an enemy with a formation, for
/// which a heading is given, steps toward the point of its orbit at that
/// heading. Every other slot stays as it is.
pub open spec fn orbited(slot: Option<Bundle>, heading: Option<Heading>) -> Option<Bundle> {
    match slot {
        Some(b) => match (b.enemy, b.formation, heading) {
            (Some(_), Some(f), Some(h)) => Some(
                Bundle {
                    transform: Transform {
                        translation: spec_follow(b.transform.translation, spec_orbit_target(f, h)),
                        scale: b.transform.scale,
                    },
                    ..b
                },
            ),
            _ => slot,
        },
        None => None,
    }
}

/// The heading that is given for slot `i`, if any.
pub open spec fn heading_at(headings: Seq<Heading>, i: int) -> Option<Heading> {
    if 0 <= i < headings.len() {
        Some(headings[i])
    } else {
        None
    }
}

/// The slots after every enemy has stepped toward the point of its orbit at
/// the heading given for its slot.
pub open spec fn all_orbited(
    entities: Seq<Option<Bundle>>,
    headings: Seq<Heading>,
) -> Seq<Option<Bundle>> {
    Seq::new(entities.len(), |i: int| orbited(entities[i], heading_at(headings, i)))
}

/// Moves every enemy one step toward the point of its orbit at the heading
/// given for its slot.
pub fn follow_headings(entities: &mut Vec<Option<Bundle>>, headings: &Vec<Heading>)
    ensures
        final(entities)@ == all_orbited(old(entities)@, headings@),
{
    let mut i: usize = 0;
    while i < entities.len()
        invariant
            i <= entities.len(),
            entities@.len() == old(entities)@.len(),
            forall|j: int| 0 <= j < i ==> entities@[j] == orbited(
                old(entities)@[j],
                heading_at(headings@, j),
            ),
            forall|j: int| i <= j < entities@.len() ==> entities@[j] == old(entities)@[j],
        decreases entities.len() - i,
    {
        if i < headings.len() {
            if let Some(b) = entities[i] {
                if b.enemy.is_some() {
                    if let Some(f) = b.formation {
                        let mut moved = b;
                        moved.transform.translation = follow(
                            b.transform.translation,
                            orbit_target(f, headings[i]),
                        );
                        entities[i] = Some(moved);
                    }
                }
            }
        }
        i += 1;
    }
    assert(entities@ =~= all_orbited(old(entities)@, headings@));
}

/// The orbit phase of the enemy in `slot` at `now`, if it holds an enemy
/// with a formation.
pub open spec fn phase_of(slot: Option<Bundle>, now: u64) -> Option<int> {
    match slot {
        Some(b) => match (b.enemy, b.formation) {
            (Some(_), Some(f)) => Some(spec_orbit_phase(f.speed, now)),
            _ => None,
        },
        None => None,
    }
}

/// Asks `trig` for the heading of every enemy at `now`: it is handed the
/// orbit phase of the enemy, and is to return cosine and sine of the phase
/// divided by pi. The result has one heading for each slot; that of a slot
/// without an enemy on an orbit means nothing.
pub fn enemy_headings<F: Fn(i32) -> Heading>(
    now: u64,
    entities: &Vec<Option<Bundle>>,
    trig: &F,
) -> (headings: Vec<Heading>)
    requires
        forall|phase: i32| trig.requires((phase,)),
    ensures
        headings@.len() == entities@.len(),
        forall|i: int|
            0 <= i < entities@.len() && phase_of(#[trigger] entities@[i], now) is Some
                ==> trig.ensures((phase_of(entities@[i], now).unwrap() as i32,), headings@[i]),
{
    let mut headings: Vec<Heading> = Vec::new();
    let mut i: usize = 0;
    while i < entities.len()
        invariant
            i <= entities.len(),
            headings@.len() == i,
            forall|phase: i32| trig.requires((phase,)),
            forall|j: int|
                0 <= j < i && phase_of(#[trigger] entities@[j], now) is Some ==> trig.ensures(
                    (phase_of(entities@[j], now).unwrap() as i32,),
                    headings@[j],
                ),
        decreases entities.len() - i,
    {
        let mut heading = Heading { cos: 0, sin: 0 };
        if let Some(b) = entities[i] {
            if b.enemy.is_some() {
                if let Some(f) = b.formation {
                    heading = trig(orbit_phase(f.speed, now));
                }
            }
        }
        headings.push(heading);
        i += 1;
    }
    headings
}

/// Moves every enemy one step along its orbit: toward the point of the
/// orbit at the angle that its phase at `now` gives, `trig` being asked for
/// cosine and sine.
pub fn enemy_movement_system<F: Fn(i32) -> Heading>(
    now: u64,
    entities: &mut Vec<Option<Bundle>>,
    trig: &F,
)
    requires
        forall|phase: i32| trig.requires((phase,)),
    ensures
        exists|headings: Seq<Heading>|
            {
                &&& headings.len() == old(entities)@.len()
                &&& forall|i: int|
                    0 <= i < old(entities)@.len() && phase_of(#[trigger] old(entities)@[i], now)
                        is Some ==> trig.ensures(
                        (phase_of(old(entities)@[i], now).unwrap() as i32,),
                        headings[i],
                    )
                &&& final(entities)@ == all_orbited(old(entities)@, headings)
            },
{
    let headings = enemy_headings(now, entities, trig);
    follow_headings(entities, &headings);
}

/// The random choices that a new enemy is made of: where it appears, and
/// the formation that it gets if a new one is due.
#[derive(Clone, Copy, Debug, PartialEq, Eq)]
pub struct EnemyDraws {
    pub x: i32,
    pub y: i32,
    pub formation: FormationDraws,
}

impl Default for EnemyDraws {
    /// The draws of an enemy that is not spawned.
    fn default() -> (draws: Self)
        ensures
            draws == (EnemyDraws {
                x: 0,
                y: 0,
                formation: FormationDraws {
                    right_edge: false,
                    start_y: 0,
                    pivot_x: 0,
                    pivot_y: 0,
                    radius_x: 0,
                },
            }),
    {
        EnemyDraws { x: 0, y: 0, formation: FormationDraws::default() }
    }
}

/// A play area that is wider and higher than the margins in which no enemy
/// is spawned.
pub open spec fn playable(win_size: &WinSize) -> bool {
    win_size.width / 2 > ENEMY_SPAWN_MARGIN && win_size.height / 2 > ENEMY_SPAWN_MARGIN
}

impl EnemyDraws {
    /// The position lies in the play area less the spawn margin, and the
    /// draws of the formation lie in their ranges.
    pub open spec fn fits(&self, win_size: &WinSize) -> bool {
        &&& -(win_size.width / 2 - ENEMY_SPAWN_MARGIN) <= self.x < win_size.width / 2
            - ENEMY_SPAWN_MARGIN
        &&& -(win_size.height / 2 - ENEMY_SPAWN_MARGIN) <= self.y < win_size.height / 2
            - ENEMY_SPAWN_MARGIN
        &&& self.formation.fits(win_size)
    }

    /// Draws what a new enemy is made of.
    pub fn draw(win_size: &WinSize, rng: &mut RandomSource) -> (draws: EnemyDraws)
        requires
            playable(win_size),
        ensures
            draws.fits(win_size),
    {
        let w_span: i32 = win_size.width / 2 - ENEMY_SPAWN_MARGIN;
        let h_span: i32 = win_size.height / 2 - ENEMY_SPAWN_MARGIN;
        let x = rng.range(-w_span, w_span);
        let y = rng.range(-h_span, h_span);
        let formation = FormationMaker::draw(win_size, rng);
        EnemyDraws { x, y, formation }
    }
}

/// An enemy craft at `(x, y)` on the orbit of `formation`.
pub open spec fn spec_enemy_bundle(x: i32, y: i32, formation: Formation) -> Bundle {
    Bundle {
        transform: Transform {
            translation: Vec2 { x, y },
            scale: Vec2 { x: SPRITE_SCALE, y: SPRITE_SCALE },
        },
        sprite_size: Some(SpriteSize(Vec2 { x: ENEMY_SIZE.0, y: ENEMY_SIZE.1 })),
        velocity: None,
        movable: None,
        attributes: None,
        formation: Some(formation),
        laser: None,
        player: None,
        from_player: None,
        enemy: Some(Enemy),
        from_enemy: None,
        explosion: None,
        explosion_to_spawn: None,
        explosion_timer: None,
        sprite: None,
    }
}

#[verifier::when_used_as_spec(spec_enemy_bundle)]
pub fn enemy_bundle(x: i32, y: i32, formation: Formation) -> (b: Bundle)
    ensures
        b == spec_enemy_bundle(x, y, formation),
{
    let mut b = Bundle::bare(
        Transform {
            translation: Vec2 { x, y },
            scale: Vec2 { x: SPRITE_SCALE, y: SPRITE_SCALE },
        },
    );
    b.sprite_size = Some(SpriteSize::from(ENEMY_SIZE));
    b.formation = Some(formation);
    b.enemy = Some(Enemy);
    b
}

/// Spawns an enemy made of `draws`, and counts it, while fewer than
/// `MAX_ENEMY_COUNT` are alive. Otherwise nothing changes.
pub fn spawn_enemy(
    commands: &mut Commands,
    enemy_count: &mut EnemyCount,
    formation_maker: &mut FormationMaker,
    win_size: &WinSize,
    draws: &EnemyDraws,
)
    ensures
        old(commands).wf() ==> final(commands).wf(),
        final(commands).despawn_queue() == old(commands).despawn_queue(),
        old(enemy_count).0 < MAX_ENEMY_COUNT ==> {
            let made = old(formation_maker).spec_make_from(win_size, &draws.formation);
            &&& final(enemy_count).0 == old(enemy_count).0 + 1
            &&& *final(formation_maker) == made.0
            &&& final(commands).spawned() == old(commands).spawned().push(
                spec_enemy_bundle(draws.x, draws.y, made.1),
            )
        },
        old(enemy_count).0 >= MAX_ENEMY_COUNT ==> {
            &&& *final(enemy_count) == *old(enemy_count)
            &&& *final(formation_maker) == *old(formation_maker)
            &&& final(commands).spawned() == old(commands).spawned()
        },
{
    if enemy_count.0 < MAX_ENEMY_COUNT {
        let formation = formation_maker.make_from(win_size, &draws.formation);
        commands.spawn(enemy_bundle(draws.x, draws.y, formation));
        enemy_count.0 += 1;
    }
}

/// While fewer than `MAX_ENEMY_COUNT` enemies are alive, spawns one at a
/// random place inside the spawn margin, on the formation that the maker
/// hands out, and counts it. Otherwise nothing changes.
pub fn enemy_spawn_system(
    commands: &mut Commands,
    enemy_count: &mut EnemyCount,
    formation_maker: &mut FormationMaker,
    win_size: &WinSize,
    rng: &mut RandomSource,
)
    requires
        playable(win_size),
    ensures
        old(commands).wf() ==> final(commands).wf(),
        final(commands).despawn_queue() == old(commands).despawn_queue(),
        old(enemy_count).0 < MAX_ENEMY_COUNT ==> exists|draws: EnemyDraws|
            {
                let made = #[trigger] old(formation_maker).spec_make_from(
                    win_size,
                    &draws.formation,
                );
                &&& draws.fits(win_size)
                &&& final(enemy_count).0 == old(enemy_count).0 + 1
                &&& *final(formation_maker) == made.0
                &&& final(commands).spawned() == old(commands).spawned().push(
                    spec_enemy_bundle(draws.x, draws.y, made.1),
                )
            },
        old(enemy_count).0 >= MAX_ENEMY_COUNT ==> {
            &&& *final(enemy_count) == *old(enemy_count)
            &&& *final(formation_maker) == *old(formation_maker)
            &&& final(commands).spawned() == old(commands).spawned()
        },
{
    if enemy_count.0 < MAX_ENEMY_COUNT {
        let draws = EnemyDraws::draw(win_size, rng);
        spawn_enemy(commands, enemy_count, formation_maker, win_size, &draws);
    }
}

/// Decides whether the enemies fire in this tick: one tick in
/// `ENEMY_FIRE_ODDS`, on average.
pub fn enemy_fire_criteria(rng: &mut RandomSource) -> (fire: bool) {
    rng.ratio(1, ENEMY_FIRE_ODDS)
}

/// A laser of an enemy that starts at `(x, y)` and flies downward.
pub open spec fn spec_enemy_laser(x: i32, y: i32) -> Bundle {
    Bundle {
        transform: Transform {
            translation: Vec2 { x, y },
            scale: Vec2 { x: SPRITE_SCALE, y: SPRITE_SCALE },
        },
        sprite_size: Some(SpriteSize(Vec2 { x: ENEMY_LASER_SIZE.0, y: ENEMY_LASER_SIZE.1 })),
        velocity: Some(Velocity { x: 0, y: -1000i32 }),
        movable: Some(Movable { auto_despawn: true }),
        attributes: None,
        formation: None,
        laser: Some(Laser),
        player: None,
        from_player: None,
        enemy: None,
        from_enemy: Some(FromEnemy),
        explosion: None,
        explosion_to_spawn: None,
        explosion_timer: None,
        sprite: None,
    }
}

#[verifier::when_used_as_spec(spec_enemy_laser)]
pub fn enemy_laser(x: i32, y: i32) -> (b: Bundle)
    ensures
        b == spec_enemy_laser(x, y),
{
    let mut b = Bundle::bare(
        Transform {
            translation: Vec2 { x, y },
            scale: Vec2 { x: SPRITE_SCALE, y: SPRITE_SCALE },
        },
    );
    b.sprite_size = Some(SpriteSize::from(ENEMY_LASER_SIZE));
    b.velocity = Some(Velocity { x: 0, y: -1000 });
    b.movable = Some(Movable { auto_despawn: true });
    b.laser = Some(Laser);
    b.from_enemy = Some(FromEnemy);
    b
}

/// The laser that the enemy in `slot` fires, if the slot holds an enemy.
pub open spec fn fired_by(slot: Option<Bundle>) -> Option<Bundle> {
    match slot {
        Some(b) => if b.enemy is Some {
            Some(
                spec_enemy_laser(
                    b.transform.translation.x,
                    saturate(b.transform.translation.y - ENEMY_LASER_DROP) as i32,
                ),
            )
        } else {
            None
        },
        None => None,
    }
}

/// The lasers of one volley: one for each enemy, in the order of the slots.
pub open spec fn enemy_volley(entities: Seq<Option<Bundle>>) -> Seq<Bundle>
    decreases entities.len(),
{
    if entities.len() == 0 {
        Seq::empty()
    } else {
        let rest = enemy_volley(entities.drop_last());
        match fired_by(entities.last()) {
            Some(b) => rest.push(b),
            None => rest,
        }
    }
}

/// Every enemy fires one laser downward; if any did, the sound of the
/// volley is asked for.
pub fn enemy_fire_system(
    commands: &mut Commands,
    audio: &mut Audio,
    entities: &Vec<Option<Bundle>>,
)
    ensures
        old(commands).wf() ==> final(commands).wf(),
        final(commands).despawn_queue() == old(commands).despawn_queue(),
        final(commands).spawned() == old(commands).spawned() + enemy_volley(entities@),
        final(audio).played() == if enemy_volley(entities@).len() > 0 {
            old(audio).played().push(AudioCue::EnemyLaserFired)
        } else {
            old(audio).played()
        },
{
    let mut fired = false;
    let mut i: usize = 0;
    assert(entities@.take(0) =~= Seq::<Option<Bundle>>::empty());
    while i < entities.len()
        invariant
            i <= entities.len(),
            old(commands).wf() ==> commands.wf(),
            commands.despawn_queue() == old(commands).despawn_queue(),
            commands.spawned() == old(commands).spawned() + enemy_volley(entities@.take(i as int)),
            fired == (enemy_volley(entities@.take(i as int)).len() > 0),
        decreases entities.len() - i,
    {
        proof {
            assert(entities@.take(i + 1).drop_last() =~= entities@.take(i as int));
        }
        if let Some(b) = entities[i] {
            if b.enemy.is_some() {
                let at = b.transform.translation;
                commands.spawn(
                    enemy_laser(at.x, saturate_i64(at.y as i64 - ENEMY_LASER_DROP as i64)),
                );
                fired = true;
            }
        }
        i += 1;
        assert(commands.spawned() =~= old(commands).spawned() + enemy_volley(
            entities@.take(i as int),
        ));
    }
    assert(entities@.take(entities@.len() as int) =~= entities@);
    if fired {
        audio.play(AudioCue::EnemyLaserFired);
    }
}

} // verus!
