//! Collectables (beers): they vanish when the player touches them.

use vstd::prelude::*;
use crate::contact::{any_contact, any_set, lemma_touched, touched, touched_indices};

verus! {

/// For each collectable, whether something it collides with is the player.
pub open spec fn collectable_hits(contacts: Seq<Vec<bool>>) -> Seq<bool> {
    Seq::new(contacts.len(), |i: int| any_set(contacts[i]@))
}

/// Collectable `i` is hit exactly when one of the things it collides with is
/// the player, whatever its place in the list.
pub proof fn lemma_collectable_hits(contacts: Seq<Vec<bool>>)
    ensures
        collectable_hits(contacts).len() == contacts.len(),
        forall|i: int| 0 <= i < contacts.len() ==> (#[trigger] collectable_hits(contacts)[i] <==> exists|j: int|
            0 <= j < contacts[i]@.len() && #[trigger] contacts[i]@[j]),
{
}

/// The collectables to remove: those touching the player (`contacts[i]`
/// tells, for each entity collectable `i` collides with, whether it is the
/// player), in increasing order.
pub fn handle_collectable_collision(contacts: &Vec<Vec<bool>>) -> (picked: Vec<usize>)
    ensures
        picked@ == touched(collectable_hits(contacts@)),
        forall|k: int| 0 <= k < picked@.len() ==> (#[trigger] picked@[k]) < contacts@.len(),
        forall|k: int, l: int| 0 <= k < l < picked@.len() ==> (#[trigger] picked@[k]) < (#[trigger] picked@[l]),
        forall|i: int| 0 <= i < contacts@.len() ==> (#[trigger] picked@.contains(i as usize) <==> exists|j: int|
            0 <= j < contacts@[i]@.len() && #[trigger] contacts@[i]@[j]),
{
    let mut hits: Vec<bool> = Vec::new();
    let mut i: usize = 0;
    while i < contacts.len()
        invariant
            i <= contacts@.len(),
            hits@ == collectable_hits(contacts@).take(i as int),
        decreases contacts@.len() - i,
    {
        let hit = any_contact(&contacts[i]);
        hits.push(hit);
        i = i + 1;
        assert(hits@ =~= collectable_hits(contacts@).take(i as int));
    }
    assert(hits@ =~= collectable_hits(contacts@));
    let picked = touched_indices(&hits);
    let n = hits.len();
    proof {
        let h = collectable_hits(contacts@);
        assert(h.len() == n);
        lemma_touched(h);
        assert forall|i: int| 0 <= i < contacts@.len() implies (#[trigger] picked@.contains(i as usize) <==> exists|j: int|
            0 <= j < contacts@[i]@.len() && #[trigger] contacts@[i]@[j]) by {
            if picked@.contains(i as usize) {
                let k = choose|k: int| 0 <= k < picked@.len() && picked@[k] == i as usize;
                assert(h[picked@[k] as int]);
                assert(any_set(contacts@[i]@));
                let j = choose|j: int| 0 <= j < contacts@[i]@.len() && #[trigger] contacts@[i]@[j];
                assert(contacts@[i]@[j]);
            }
            if exists|j: int| 0 <= j < contacts@[i]@.len() && #[trigger] contacts@[i]@[j] {
                let j = choose|j: int| 0 <= j < contacts@[i]@.len() && #[trigger] contacts@[i]@[j];
                assert(any_set(contacts@[i]@));
                assert(h[i]);
            }
        }
    }
    picked
}

} // verus!
