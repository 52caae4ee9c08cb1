//! What systems ask for while they run: spawns and despawns, which the
//! world applies at the end of the tick, and audio cues.
use vstd::prelude::*;
use bevy::utils::HashSet;
use crate::components::Bundle;

verus! {

/// Names an entity: the index of its slot in the world.
#[derive(Clone, Copy, Debug, PartialEq, Eq, Hash)]
pub struct Entity(pub usize);

/// A set of slots, held in a `bevy::utils::HashSet`.
#[verifier::external_body]
pub struct EntitySet {
    set: HashSet<usize>,
}

/// The slots that an `EntitySet` holds.
pub uninterp spec fn marked(set: EntitySet) -> Set<usize>;

/// `bevy::utils::HashSet::new`: a set that holds nothing.
#[verifier::external_body]
fn set_new() -> (set: EntitySet)
    ensures
        marked(set) == Set::<usize>::empty(),
{
    EntitySet { set: HashSet::new() }
}

/// `bevy::utils::HashSet::insert`: afterwards the set holds `slot` and what
/// it held before; the result tells whether `slot` is new to it.
#[verifier::external_body]
fn set_insert(set: &mut EntitySet, slot: usize) -> (fresh: bool)
    ensures
        marked(*final(set)) == marked(*old(set)).insert(slot),
        fresh == !marked(*old(set)).contains(slot),
{
    set.set.insert(slot)
}

/// `bevy::utils::HashSet::contains`: whether the set holds `slot`.
#[verifier::external_body]
fn set_contains(set: &EntitySet, slot: usize) -> (found: bool)
    ensures
        found == marked(*set).contains(slot),
{
    set.set.contains(&slot)
}

/// The entities of a queue with one more at its end are those of the queue
/// and that one.
pub proof fn lemma_push_to_set(queue: Seq<Entity>, entity: Entity)
    ensures
        queue.push(entity).to_set() == queue.to_set().insert(entity),
{
    let longer = queue.push(entity);
    assert forall|e: Entity| longer.to_set().contains(e) == queue.to_set().insert(
        entity,
    ).contains(e) by {
        if queue.contains(e) {
            let j = choose|j: int| 0 <= j < queue.len() && queue[j] == e;
            assert(longer[j] == e);
        }
        if e == entity {
            assert(longer[queue.len() as int] == e);
        }
    }
    assert(longer.to_set() =~= queue.to_set().insert(entity));
}

/// The spawns and despawns that are asked for in one tick. An entity is
/// queued for despawn at most once, however often it is asked for.
pub struct Commands {
    spawns: Vec<Bundle>,
    despawns: Vec<Entity>,
    seen: EntitySet,
}

impl Commands {
    /// The bundles to spawn, in the order in which they were asked for.
    pub closed spec fn spawned(&self) -> Seq<Bundle> {
        self.spawns@
    }

    /// The queue of entities to despawn.
    pub closed spec fn despawn_queue(&self) -> Seq<Entity> {
        self.despawns@
    }

    /// The slots that are marked as queued.
    pub closed spec fn seen(&self) -> Set<usize> {
        marked(self.seen)
    }

    /// The entities to despawn.
    pub open spec fn despawned(&self) -> Set<Entity> {
        self.despawn_queue().to_set()
    }

    /// No entity is queued twice, and the slots marked are those of the
    /// entities queued.
    pub open spec fn wf(&self) -> bool {
        &&& self.despawn_queue().no_duplicates()
        &&& forall|slot: usize|
            self.seen().contains(slot) <==> #[trigger] self.despawned().contains(Entity(slot))
    }

    pub fn new() -> (commands: Self)
        ensures
            commands.wf(),
            commands.spawned() == Seq::<Bundle>::empty(),
            commands.despawn_queue() == Seq::<Entity>::empty(),
            commands.despawned() == Set::<Entity>::empty(),
    {
        let commands = Commands { spawns: Vec::new(), despawns: Vec::new(), seen: set_new() };
        assert(commands.despawn_queue().to_set() =~= Set::<Entity>::empty());
        commands
    }

    /// Asks for an entity made of `bundle`.
    pub fn spawn(&mut self, bundle: Bundle)
        ensures
            final(self).spawned() == old(self).spawned().push(bundle),
            final(self).despawn_queue() == old(self).despawn_queue(),
            old(self).wf() ==> final(self).wf(),
    {
        self.spawns.push(bundle);
        proof {
            if old(self).wf() {
                assert forall|slot: usize|
                    self.seen().contains(slot) <==> #[trigger] self.despawned().contains(
                        Entity(slot),
                    ) by {
                    assert(old(self).seen().contains(slot) <==> old(self).despawned().contains(
                        Entity(slot),
                    ));
                }
            }
        }
    }

    /// Tells whether `entity` is queued for despawn.
    pub fn is_despawned(&self, entity: Entity) -> (queued: bool)
        requires
            self.wf(),
        ensures
            queued == self.despawned().contains(entity),
    {
        set_contains(&self.seen, entity.0)
    }

    /// Asks for the removal of `entity`. A second request for the same
    /// entity changes nothing.
    pub fn despawn(&mut self, entity: Entity)
        requires
            old(self).wf(),
        ensures
            final(self).wf(),
            final(self).spawned() == old(self).spawned(),
            final(self).despawned() == old(self).despawned().insert(entity),
            old(self).despawned().contains(entity) ==> final(self).despawn_queue() == old(
                self,
            ).despawn_queue(),
            !old(self).despawned().contains(entity) ==> final(self).despawn_queue() == old(
                self,
            ).despawn_queue().push(entity),
    {
        if set_insert(&mut self.seen, entity.0) {
            self.despawns.push(entity);
            proof {
                lemma_push_to_set(old(self).despawn_queue(), entity);
                assert(!old(self).despawned().contains(Entity(entity.0)));
                assert forall|slot: usize|
                    self.seen().contains(slot) <==> #[trigger] self.despawned().contains(
                        Entity(slot),
                    ) by {
                    assert(old(self).seen().contains(slot) <==> old(self).despawned().contains(
                        Entity(slot),
                    ));
                    assert(slot == entity.0 <==> Entity(slot) == entity);
                }
            }
        } else {
            proof {
                assert(old(self).despawned().contains(Entity(entity.0)));
                assert(self.despawned().insert(entity) =~= self.despawned());
                assert forall|slot: usize|
                    self.seen().contains(slot) <==> #[trigger] self.despawned().contains(
                        Entity(slot),
                    ) by {
                    assert(old(self).seen().contains(slot) <==> old(self).despawned().contains(
                        Entity(slot),
                    ));
                }
            }
        }
    }

    /// The bundles to spawn.
    pub fn spawns(&self) -> (v: &Vec<Bundle>)
        ensures
            v@ == self.spawned(),
    {
        &self.spawns
    }

    /// The entities to despawn.
    pub fn despawns(&self) -> (v: &Vec<Entity>)
        ensures
            v@ == self.despawn_queue(),
    {
        &self.despawns
    }
}

/// A sound that the simulation asks for.
#[derive(Clone, Copy, Debug, PartialEq, Eq)]
pub enum AudioCue {
    PlayerLaserFired,
    EnemyLaserFired,
    EnemyExploded,
    PlayerExploded,
    PlayerHit,
}

/// The audio cues of one tick, in the order in which they were asked for.
pub struct Audio {
    cues: Vec<AudioCue>,
}

impl Audio {
    pub closed spec fn played(&self) -> Seq<AudioCue> {
        self.cues@
    }

    pub fn new() -> (audio: Self)
        ensures
            audio.played() == Seq::<AudioCue>::empty(),
    {
        Audio { cues: Vec::new() }
    }

    /// Asks for `cue` to be played.
    pub fn play(&mut self, cue: AudioCue)
        ensures
            final(self).played() == old(self).played().push(cue),
    {
        self.cues.push(cue);
    }

    pub fn cues(&self) -> (v: &Vec<AudioCue>)
        ensures
            v@ == self.played(),
    {
        &self.cues
    }

    /// Hands over the cues.
    pub fn into_cues(self) -> (v: Vec<AudioCue>)
        ensures
            v@ == self.played(),
    {
        self.cues
    }
}

} // verus!
