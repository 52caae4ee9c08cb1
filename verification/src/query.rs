//! Selecting entities by the components they hold.
//!
//! The entities of a world stand in slots: slot `i` holds the bundle of
//! `Entity(i)`, or nothing.
use vstd::prelude::*;
use crate::components::Bundle;

verus! {

/// The slot holds the craft of the player.
pub open spec fn is_player(slot: Option<Bundle>) -> bool {
    slot matches Some(b) && b.player is Some
}

/// Slot `i` holds the craft of the player, and no other slot does.
pub open spec fn sole_player(entities: Seq<Option<Bundle>>, i: int) -> bool {
    &&& 0 <= i < entities.len()
    &&& is_player(entities[i])
    &&& forall|j: int| 0 <= j < entities.len() && is_player(#[trigger] entities[j]) ==> j == i
}

/// The slot of the player, where exactly one slot holds a player.
pub open spec fn spec_single_player(entities: Seq<Option<Bundle>>) -> Option<int> {
    if exists|i: int| sole_player(entities, i) {
        Some(choose|i: int| sole_player(entities, i))
    } else {
        None
    }
}

/// The slot that `sole_player` holds of is the single player.
pub proof fn lemma_single_player(entities: Seq<Option<Bundle>>, i: int)
    requires
        sole_player(entities, i),
    ensures
        spec_single_player(entities) == Some(i),
{
    let k = choose|k: int| sole_player(entities, k);
    assert(is_player(entities[k]));
}

/// Finds the player, where there is exactly one.
pub fn single_player(entities: &Vec<Option<Bundle>>) -> (found: Option<usize>)
    ensures
        found matches Some(i) ==> spec_single_player(entities@) == Some(i as int),
        found is None ==> spec_single_player(entities@) is None,
{
    let mut found: Option<usize> = None;
    let mut i: usize = 0;
    while i < entities.len()
        invariant
            i <= entities.len(),
            found matches Some(k) ==> k < i && is_player(entities@[k as int]),
            forall|j: int| 0 <= j < i && is_player(#[trigger] entities@[j]) ==> found == Some(j as usize),
        decreases entities.len() - i,
    {
        let here = match entities[i] {
            Some(b) => b.player.is_some(),
            None => false,
        };
        if here {
            if found.is_some() {
                proof {
                    let k = found.unwrap() as int;
                    assert forall|n: int| !sole_player(entities@, n) by {
                        if sole_player(entities@, n) {
                            assert(is_player(entities@[k]));
                            assert(is_player(entities@[i as int]));
                        }
                    }
                }
                return None;
            }
            found = Some(i);
        }
        i += 1;
    }
    proof {
        match found {
            Some(k) => {
                assert(sole_player(entities@, k as int));
                lemma_single_player(entities@, k as int);
            },
            None => {
                assert forall|n: int| !sole_player(entities@, n) by {
                    if sole_player(entities@, n) {
                        assert(is_player(entities@[n]));
                    }
                }
            },
        }
    }
    found
}

} // verus!
