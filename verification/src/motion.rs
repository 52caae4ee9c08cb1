//! Motion: every entity that has a velocity moves by one time step, and
//! what has left the play area is removed.
use vstd::prelude::*;
use crate::commands::Commands;
use crate::commands::Entity;
use crate::components::Bundle;
use crate::components::Transform;
use crate::components::Vec2;
use crate::components::Velocity;
use crate::fixed::div_trunc;
use crate::fixed::saturate;
use crate::fixed::saturate_i64;
use crate::fixed::UNIT;
use crate::WinSize;
use crate::BASE_SPEED;
use crate::TICKS_PER_SECOND;

verus! {

/// How far beyond the edge of the play area an entity may be before it is
/// removed.
pub const DESPAWN_MARGIN: i32 = 200_000;

/// The distance covered in one tick at the velocity `v`: the velocity
/// multiplied by the time step and the base speed, rounded toward zero.
pub open spec fn spec_step_length(v: i32) -> int {
    div_trunc(v * BASE_SPEED, TICKS_PER_SECOND * UNIT)
}

pub fn step_length(v: i32) -> (step: i64)
    ensures
        step == spec_step_length(v),
        -0x100_0000_0000 <= step <= 0x100_0000_0000,
{
    let speed: i64 = BASE_SPEED as i64;
    let per_unit: i64 = TICKS_PER_SECOND as i64 * UNIT as i64;
    assert(per_unit == 60_000 && speed == 500_000);
    let wide: i64 = v as i64 * speed;
    assert(wide == v * BASE_SPEED && -0x8_0000_0000_0000 <= wide <= 0x8_0000_0000_0000)
        by (nonlinear_arith)
        requires
            wide == v * speed,
            speed == 500_000,
            BASE_SPEED == 500_000,
            -0x8000_0000 <= v <= 0x8000_0000,
    ;
    assert(TICKS_PER_SECOND * UNIT == 60_000) by (nonlinear_arith)
        requires
            TICKS_PER_SECOND == 60,
            UNIT == 1000,
    ;
    wide / per_unit
}

/// The position one tick after `position`, at `velocity`.
pub open spec fn spec_advance(position: Vec2, velocity: Velocity) -> Vec2 {
    Vec2 {
        x: saturate(position.x + spec_step_length(velocity.x)) as i32,
        y: saturate(position.y + spec_step_length(velocity.y)) as i32,
    }
}

#[verifier::when_used_as_spec(spec_advance)]
pub fn advance(position: Vec2, velocity: Velocity) -> (next: Vec2)
    ensures
        next == spec_advance(position, velocity),
{
    Vec2 {
        x: saturate_i64(position.x as i64 + step_length(velocity.x)),
        y: saturate_i64(position.y as i64 + step_length(velocity.y)),
    }
}

/// Whether `position` lies beyond the play area extended by
/// `DESPAWN_MARGIN` on every side.
pub open spec fn spec_out_of_bounds(position: Vec2, win_size: &WinSize) -> bool {
    ||| 2 * position.y > win_size.height + 2 * DESPAWN_MARGIN
    ||| 2 * position.y < -win_size.height - 2 * DESPAWN_MARGIN
    ||| 2 * position.x > win_size.width + 2 * DESPAWN_MARGIN
    ||| 2 * position.x < -win_size.width - 2 * DESPAWN_MARGIN
}

#[verifier::when_used_as_spec(spec_out_of_bounds)]
pub fn out_of_bounds(position: Vec2, win_size: &WinSize) -> (out: bool)
    ensures
        out == spec_out_of_bounds(position, win_size),
{
    let x: i64 = 2 * (position.x as i64);
    let y: i64 = 2 * (position.y as i64);
    let w: i64 = win_size.width as i64 + 2 * (DESPAWN_MARGIN as i64);
    let h: i64 = win_size.height as i64 + 2 * (DESPAWN_MARGIN as i64);
    y > h || y < -h || x > w || x < -w
}

/// The slot after one tick of motion: an entity that is movable and has a
/// velocity advances. Every other slot stays as it is.
pub open spec fn moved(slot: Option<Bundle>) -> Option<Bundle> {
    match slot {
        Some(b) => match (b.velocity, b.movable) {
            (Some(v), Some(_)) => Some(
                Bundle {
                    transform: Transform {
                        translation: spec_advance(b.transform.translation, v),
                        scale: b.transform.scale,
                    },
                    ..b
                },
            ),
            _ => slot,
        },
        None => None,
    }
}

/// Whether the entity in `slot` is removed after its move: it is marked
/// for removal off screen, and its new position is out of bounds.
pub open spec fn leaves(slot: Option<Bundle>, win_size: &WinSize) -> bool {
    match slot {
        Some(b) => match (b.velocity, b.movable) {
            (Some(v), Some(m)) => m.auto_despawn && spec_out_of_bounds(
                spec_advance(b.transform.translation, v),
                win_size,
            ),
            _ => false,
        },
        None => false,
    }
}

/// An entity at rest stays where it is; if it is marked for removal off
/// screen, it is removed when it stands beyond the margin round the play
/// area, and only then.
pub proof fn lemma_leaves_at_rest(b: Bundle, win_size: &WinSize)
    requires
        b.velocity == Some(Velocity { x: 0, y: 0 }),
        b.movable == Some(crate::components::Movable { auto_despawn: true }),
    ensures
        moved(Some(b)) == Some(b),
        leaves(Some(b), win_size) <==> spec_out_of_bounds(b.transform.translation, win_size),
{
    assert(0 * BASE_SPEED == 0) by (nonlinear_arith);
    assert(spec_step_length(0) == 0);
}

/// The slots after one tick of motion.
pub open spec fn all_moved(entities: Seq<Option<Bundle>>) -> Seq<Option<Bundle>> {
    Seq::new(entities.len(), |i: int| moved(entities[i]))
}

/// Among the first `n` slots, the entities that are removed after their
/// move.
pub open spec fn leaving(entities: Seq<Option<Bundle>>, win_size: &WinSize, n: int) -> Set<
    Entity,
> {
    Set::new(|e: Entity| e.0 < n && e.0 < entities.len() && leaves(entities[e.0 as int], win_size))
}

/// Advances every movable entity by its velocity, and asks for the removal
/// of those that are marked for it and have left the play area extended by
/// `DESPAWN_MARGIN`.
pub fn movable_system(
    commands: &mut Commands,
    win_size: &WinSize,
    entities: &mut Vec<Option<Bundle>>,
)
    requires
        old(commands).wf(),
    ensures
        final(commands).wf(),
        final(commands).spawned() == old(commands).spawned(),
        final(commands).despawned() == old(commands).despawned() + leaving(
            old(entities)@,
            win_size,
            old(entities)@.len() as int,
        ),
        final(entities)@ == all_moved(old(entities)@),
{
    let mut i: usize = 0;
    assert(commands.despawned() =~= old(commands).despawned() + leaving(
        old(entities)@,
        win_size,
        0,
    ));
    while i < entities.len()
        invariant
            i <= entities.len(),
            entities@.len() == old(entities)@.len(),
            commands.wf(),
            commands.spawned() == old(commands).spawned(),
            commands.despawned() == old(commands).despawned() + leaving(
                old(entities)@,
                win_size,
                i as int,
            ),
            forall|j: int| 0 <= j < i ==> entities@[j] == moved(old(entities)@[j]),
            forall|j: int| i <= j < entities@.len() ==> entities@[j] == old(entities)@[j],
        decreases entities.len() - i,
    {
        let ghost before = commands.despawned();
        let mut gone = false;
        if let Some(b) = entities[i] {
            if let Some(v) = b.velocity {
                if let Some(m) = b.movable {
                    let mut next = b;
                    next.transform.translation = advance(b.transform.translation, v);
                    entities[i] = Some(next);
                    if m.auto_despawn && out_of_bounds(next.transform.translation, win_size) {
                        commands.despawn(Entity(i));
                        gone = true;
                    }
                }
            }
        }
        proof {
            let slot = old(entities)@[i as int];
            assert(gone == leaves(slot, win_size));
            let wider = leaving(old(entities)@, win_size, i + 1);
            let narrower = leaving(old(entities)@, win_size, i as int);
            if gone {
                assert(wider =~= narrower.insert(Entity(i)));
                assert(commands.despawned() =~= old(commands).despawned() + wider);
            } else {
                assert(wider =~= narrower);
            }
        }
        i += 1;
    }
    assert(entities@ =~= all_moved(old(entities)@));
}

} // verus!
