//! The map from the leaf indices of the scene's bounding volume hierarchy to
//! the entities they stand for.
use std::collections::HashMap;

use vstd::prelude::*;

verus! {

broadcast use vstd::std_specs::hash::group_hash_axioms;

#[verifier::external_type_specification]
#[verifier::external_body]
pub struct ExEntity(hecs::Entity);

/// Leaf indices handed out so far, each with its entity. Indices are handed
/// out in increasing order and never reused.
#[derive(Clone, Debug)]
pub struct LeafIndexMap {
    entities: HashMap<u32, hecs::Entity>,
    next_leaf_index: u32,
}

impl LeafIndexMap {
    /// The entity of each leaf index that is in use.
    pub closed spec fn entities(&self) -> Map<u32, hecs::Entity> {
        self.entities@
    }

    /// The index the next insertion hands out.
    pub closed spec fn next_index(&self) -> u32 {
        self.next_leaf_index
    }

    /// Every index in use is below the next one to be handed out.
    pub open spec fn wf(&self) -> bool {
        forall|i: u32| #[trigger] self.entities().contains_key(i) ==> i < self.next_index()
    }

    /// A map with no leaves, which hands out 0 first.
    pub fn new() -> (r: Self)
        ensures
            r.wf(),
            r.entities() == Map::<u32, hecs::Entity>::empty(),
            r.next_index() == 0,
    {
        LeafIndexMap { entities: HashMap::new(), next_leaf_index: 0 }
    }

    /// Hands out a fresh leaf index for `entity`.
    pub fn insert(&mut self, entity: hecs::Entity) -> (r: u32)
        requires
            old(self).wf(),
            old(self).next_index() < u32::MAX,
        ensures
            final(self).wf(),
            r == old(self).next_index(),
            !old(self).entities().contains_key(r),
            final(self).entities() == old(self).entities().insert(r, entity),
            final(self).next_index() == old(self).next_index() + 1,
    {
        let leaf_index = self.next_leaf_index;
        self.next_leaf_index = self.next_leaf_index + 1;
        self.entities.insert(leaf_index, entity);
        assert forall|i: u32| #[trigger] self.entities().contains_key(i) implies i < self.next_index() by {
            if i != leaf_index {
                assert(old(self).entities().contains_key(i));
            }
        }
        leaf_index
    }

    /// Stops tracking `leaf_index` and hands back its entity, if it was in use.
    pub fn remove(&mut self, leaf_index: u32) -> (r: Option<hecs::Entity>)
        requires
            old(self).wf(),
        ensures
            final(self).wf(),
            final(self).entities() == old(self).entities().remove(leaf_index),
            final(self).next_index() == old(self).next_index(),
            match r {
                Some(entity) => old(self).entities().contains_key(leaf_index) && entity
                    == old(self).entities()[leaf_index],
                None => !old(self).entities().contains_key(leaf_index),
            },
    {
        let r = self.entities.remove(&leaf_index);
        assert forall|i: u32| #[trigger] self.entities().contains_key(i) implies i < self.next_index() by {
            assert(old(self).entities().contains_key(i));
        }
        r
    }

    /// The entity of a leaf index that is in use.
    pub fn resolve(&self, leaf_index: u32) -> (r: hecs::Entity)
        requires
            self.entities().contains_key(leaf_index),
        ensures
            r == self.entities()[leaf_index],
    {
        *self.entities.get(&leaf_index).unwrap()
    }
}

impl Default for LeafIndexMap {
    fn default() -> (r: Self)
        ensures
            r.wf(),
            r.entities() == Map::<u32, hecs::Entity>::empty(),
            r.next_index() == 0,
    {
        LeafIndexMap::new()
    }
}

/// An index handed out by one insertion is never handed out by a later one:
/// the index of a later insertion is larger.
pub proof fn law_fresh_indices(map: LeafIndexMap, later: LeafIndexMap, index: u32)
    requires
        map.wf(),
        map.entities().contains_key(index),
        map.next_index() <= later.next_index(),
    ensures
        index < later.next_index(),
{
}

/// The entity a fresh leaf index was handed out for is what that index
/// resolves to, and every index in use before still resolves as before.
pub proof fn law_resolve_after_insert(
    entities: Map<u32, hecs::Entity>,
    index: u32,
    entity: hecs::Entity,
    other: u32,
)
    requires
        !entities.contains_key(index),
        entities.contains_key(other),
    ensures
        entities.insert(index, entity)[index] == entity,
        entities.insert(index, entity)[other] == entities[other],
{
}

} // verus!
