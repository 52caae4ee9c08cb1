//! The slots that hold the entities of a world, and how the commands of a
//! tick change them.
//!
//! Slot `i` holds the bundle of `Entity(i)`, or nothing. A despawn empties
//! the slot; a spawn fills the first empty slot, or a new one at the end
//! where none is empty.
use vstd::prelude::*;
use crate::commands::Commands;
use crate::commands::Entity;
use crate::components::Bundle;

verus! {

/// The two kinds of craft.
#[derive(Clone, Copy, Debug, PartialEq, Eq)]
pub enum Craft {
    Player,
    Enemy,
}

/// The slot holds a craft of the kind `craft`.
pub open spec fn holds(slot: Option<Bundle>, craft: Craft) -> bool {
    match slot {
        Some(b) => match craft {
            Craft::Player => b.player is Some,
            Craft::Enemy => b.enemy is Some,
        },
        None => false,
    }
}

/// The number of slots that hold a craft of the kind `craft`.
pub open spec fn count(entities: Seq<Option<Bundle>>, craft: Craft) -> nat
    decreases entities.len(),
{
    if entities.len() == 0 {
        0
    } else {
        count(entities.drop_last(), craft) + if holds(entities.last(), craft) {
            1nat
        } else {
            0nat
        }
    }
}

/// Counts the slots that hold a craft of the kind `craft`.
pub fn count_craft(entities: &Vec<Option<Bundle>>, craft: Craft) -> (n: usize)
    ensures
        n == count(entities@, craft),
{
    let mut n: usize = 0;
    let mut i: usize = 0;
    assert(entities@.take(0) =~= Seq::<Option<Bundle>>::empty());
    while i < entities.len()
        invariant
            i <= entities.len(),
            n <= i,
            n == count(entities@.take(i as int), craft),
        decreases entities.len() - i,
    {
        assert(entities@.take(i + 1).drop_last() =~= entities@.take(i as int));
        let here = match entities[i] {
            Some(b) => match craft {
                Craft::Player => b.player.is_some(),
                Craft::Enemy => b.enemy.is_some(),
            },
            None => false,
        };
        if here {
            n += 1;
        }
        i += 1;
    }
    assert(entities@.take(entities@.len() as int) =~= entities@);
    n
}

/// Slots that hold craft of the same kinds, one by one, hold as many.
pub proof fn lemma_count_alike(a: Seq<Option<Bundle>>, b: Seq<Option<Bundle>>, craft: Craft)
    requires
        a.len() == b.len(),
        forall|i: int| 0 <= i < a.len() ==> holds(a[i], craft) == holds(b[i], craft),
    ensures
        count(a, craft) == count(b, craft),
    decreases a.len(),
{
    if a.len() > 0 {
        lemma_count_alike(a.drop_last(), b.drop_last(), craft);
    }
}

/// Slots of which none holds a craft of the kind hold none.
pub proof fn lemma_count_none(a: Seq<Option<Bundle>>, craft: Craft)
    requires
        forall|i: int| 0 <= i < a.len() ==> !holds(a[i], craft),
    ensures
        count(a, craft) == 0,
    decreases a.len(),
{
    if a.len() > 0 {
        lemma_count_none(a.drop_last(), craft);
    }
}

/// The count of two runs of slots put together is the sum of their counts.
pub proof fn lemma_count_add(a: Seq<Option<Bundle>>, b: Seq<Option<Bundle>>, craft: Craft)
    ensures
        count(a + b, craft) == count(a, craft) + count(b, craft),
    decreases b.len(),
{
    if b.len() == 0 {
        assert(a + b =~= a);
    } else {
        assert((a + b).drop_last() =~= a + b.drop_last());
        lemma_count_add(a, b.drop_last(), craft);
    }
}

/// Changing one slot changes the count by what the slot held and holds.
pub proof fn lemma_count_update(
    a: Seq<Option<Bundle>>,
    i: int,
    slot: Option<Bundle>,
    craft: Craft,
)
    requires
        0 <= i < a.len(),
    ensures
        count(a.update(i, slot), craft) + (if holds(a[i], craft) {
            1nat
        } else {
            0nat
        }) == count(a, craft) + (if holds(slot, craft) {
            1nat
        } else {
            0nat
        }),
    decreases a.len(),
{
    if i == a.len() - 1 {
        assert(a.update(i, slot).drop_last() =~= a.drop_last());
    } else {
        assert(a.update(i, slot).drop_last() =~= a.drop_last().update(i, slot));
        lemma_count_update(a.drop_last(), i, slot, craft);
    }
}

/// The bundles as slots that are filled.
pub open spec fn filled(bundles: Seq<Bundle>) -> Seq<Option<Bundle>> {
    Seq::new(bundles.len(), |k: int| Some(bundles[k]))
}

/// The slots after the entities in `despawned` are removed.
pub open spec fn cleared(entities: Seq<Option<Bundle>>, despawned: Set<Entity>) -> Seq<
    Option<Bundle>,
> {
    Seq::new(
        entities.len(),
        |i: int|
            if despawned.contains(Entity(i as usize)) {
                None
            } else {
                entities[i]
            },
    )
}

/// The first empty slot from `from` on.
pub open spec fn free_slot(entities: Seq<Option<Bundle>>, from: int) -> Option<int>
    decreases entities.len() - from,
{
    if from < 0 || from >= entities.len() {
        None
    } else if entities[from] is None {
        Some(from)
    } else {
        free_slot(entities, from + 1)
    }
}

/// The slots after `bundle` is spawned: it fills the first empty slot, or
/// a new slot at the end where none is empty.
pub open spec fn placed(entities: Seq<Option<Bundle>>, bundle: Bundle) -> Seq<Option<Bundle>> {
    match free_slot(entities, 0) {
        Some(i) => entities.update(i, Some(bundle)),
        None => entities.push(Some(bundle)),
    }
}

/// The slots after `bundles` are spawned one after the other.
pub open spec fn placed_all(entities: Seq<Option<Bundle>>, bundles: Seq<Bundle>) -> Seq<
    Option<Bundle>,
>
    decreases bundles.len(),
{
    if bundles.len() == 0 {
        entities
    } else {
        placed(placed_all(entities, bundles.drop_last()), bundles.last())
    }
}

/// The slots after the commands of a tick are applied: first the despawns,
/// then the spawns.
pub open spec fn flushed(
    entities: Seq<Option<Bundle>>,
    spawned: Seq<Bundle>,
    despawned: Set<Entity>,
) -> Seq<Option<Bundle>> {
    placed_all(cleared(entities, despawned), spawned)
}

/// An empty slot that `free_slot` finds is empty, in range, and the first.
pub proof fn lemma_free_slot(entities: Seq<Option<Bundle>>, from: int)
    requires
        0 <= from,
    ensures
        free_slot(entities, from) matches Some(i) ==> from <= i < entities.len() && entities[i]
            is None,
        free_slot(entities, from) is None ==> forall|j: int|
            from <= j < entities.len() ==> entities[j] is Some,
    decreases entities.len() - from,
{
    if from < entities.len() && entities[from] is Some {
        lemma_free_slot(entities, from + 1);
    }
}

/// A spawn adds one to the count of the kind that the bundle is of, and
/// nothing to the other.
pub proof fn lemma_count_placed(entities: Seq<Option<Bundle>>, bundle: Bundle, craft: Craft)
    ensures
        count(placed(entities, bundle), craft) == count(entities, craft) + (if holds(
            Some(bundle),
            craft,
        ) {
            1nat
        } else {
            0nat
        }),
{
    lemma_free_slot(entities, 0);
    match free_slot(entities, 0) {
        Some(i) => {
            lemma_count_update(entities, i, Some(bundle), craft);
        },
        None => {
            assert(entities.push(Some(bundle)).drop_last() =~= entities);
        },
    }
}

/// Spawns add to a count the number of craft of that kind among them.
pub proof fn lemma_count_placed_all(
    entities: Seq<Option<Bundle>>,
    bundles: Seq<Bundle>,
    craft: Craft,
)
    ensures
        count(placed_all(entities, bundles), craft) == count(entities, craft) + count(
            filled(bundles),
            craft,
        ),
    decreases bundles.len(),
{
    if bundles.len() > 0 {
        lemma_count_placed_all(entities, bundles.drop_last(), craft);
        lemma_count_placed(placed_all(entities, bundles.drop_last()), bundles.last(), craft);
        assert(filled(bundles).drop_last() =~= filled(bundles.drop_last()));
    }
}

/// Removes the entities that `queue` names.
fn clear_slots(entities: &mut Vec<Option<Bundle>>, queue: &Vec<Entity>)
    ensures
        final(entities)@ == cleared(old(entities)@, queue@.to_set()),
{
    let mut k: usize = 0;
    assert(entities@ =~= cleared(old(entities)@, queue@.take(0).to_set()));
    while k < queue.len()
        invariant
            k <= queue.len(),
            entities@ == cleared(old(entities)@, queue@.take(k as int).to_set()),
        decreases queue.len() - k,
    {
        let e = queue[k];
        if e.0 < entities.len() {
            entities[e.0] = None;
        }
        proof {
            let before = queue@.take(k as int);
            assert(queue@.take(k + 1) =~= before.push(e));
            crate::commands::lemma_push_to_set(before, e);
            assert(entities@ =~= cleared(old(entities)@, queue@.take(k + 1).to_set()));
        }
        k += 1;
    }
    assert(queue@.take(queue@.len() as int) =~= queue@);
}

/// Puts `bundle` into the first empty slot, or into a new one, and tells
/// which.
pub fn place(entities: &mut Vec<Option<Bundle>>, bundle: Bundle) -> (entity: Entity)
    ensures
        final(entities)@ == placed(old(entities)@, bundle),
        entity.0 < final(entities)@.len(),
        final(entities)@[entity.0 as int] == Some(bundle),
{
    let mut i: usize = 0;
    while i < entities.len()
        invariant
            i <= entities.len(),
            entities@ == old(entities)@,
            free_slot(entities@, 0) == free_slot(entities@, i as int),
        decreases entities.len() - i,
    {
        if entities[i].is_none() {
            entities[i] = Some(bundle);
            return Entity(i);
        }
        i += 1;
    }
    entities.push(Some(bundle));
    Entity(i)
}

/// Applies the commands of a tick: removes the entities queued for despawn,
/// then spawns the bundles queued, in their order.
pub fn flush(entities: &mut Vec<Option<Bundle>>, commands: &Commands)
    ensures
        final(entities)@ == flushed(old(entities)@, commands.spawned(), commands.despawned()),
{
    clear_slots(entities, commands.despawns());
    let spawns = commands.spawns();
    let ghost base = entities@;
    let mut k: usize = 0;
    assert(spawns@.take(0) =~= Seq::<Bundle>::empty());
    while k < spawns.len()
        invariant
            k <= spawns.len(),
            entities@ == placed_all(base, spawns@.take(k as int)),
        decreases spawns.len() - k,
    {
        assert(spawns@.take(k + 1).drop_last() =~= spawns@.take(k as int));
        place(entities, spawns[k]);
        k += 1;
    }
    assert(spawns@.take(spawns@.len() as int) =~= spawns@);
}

} // verus!
