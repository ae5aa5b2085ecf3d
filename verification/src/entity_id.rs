//! Allocation of the 32-bit entity ids that clients see, and their mapping
//! to and from the ECS's own entity handles (held as their 64-bit form).
use std::collections::HashMap;

use vstd::prelude::*;

verus! {

broadcast use vstd::std_specs::hash::group_hash_axioms;

/// Hands out entity ids and remembers which entity holds which.
pub struct EntityIdAllocator {
    /// The id the next allocation hands out.
    pub next_id: u32,
    entity_to_id: HashMap<u64, u32>,
    id_to_entity: HashMap<u32, u64>,
}

/// The id after `id`: wraps to 1, skipping 0.
pub open spec fn next_entity_id(id: u32) -> u32 {
    if id == u32::MAX {
        1
    } else {
        (id + 1) as u32
    }
}

impl EntityIdAllocator {
    /// The id the next allocation hands out.
    pub closed spec fn next(&self) -> u32 {
        self.next_id
    }

    /// The id of each entity that holds one.
    pub closed spec fn ids(&self) -> Map<u64, u32> {
        self.entity_to_id@
    }

    /// The entity holding each id.
    pub closed spec fn entities(&self) -> Map<u32, u64> {
        self.id_to_entity@
    }

    /// No ids handed out; the first will be 1.
    pub fn new() -> (a: Self)
        ensures
            a.next() == 1,
            a.ids() == Map::<u64, u32>::empty(),
            a.entities() == Map::<u32, u64>::empty(),
    {
        EntityIdAllocator { next_id: 1, entity_to_id: HashMap::new(), id_to_entity: HashMap::new() }
    }

    /// Gives `entity` the next id and records the mapping both ways.
    pub fn allocate(&mut self, entity: u64) -> (id: u32)
        ensures
            id == old(self).next(),
            final(self).next() == next_entity_id(id),
            final(self).ids() == old(self).ids().insert(entity, id),
            final(self).entities() == old(self).entities().insert(id, entity),
    {
        let id = self.next_id;
        self.next_id = self.next_id.wrapping_add(1);
        if self.next_id == 0 {
            self.next_id = 1;
        }
        self.entity_to_id.insert(entity, id);
        self.id_to_entity.insert(id, entity);
        id
    }

    /// Forgets `entity`'s id, both ways. Nothing happens when it holds none.
    pub fn deallocate(&mut self, entity: u64)
        ensures
            final(self).next() == old(self).next(),
            old(self).ids().contains_key(entity) ==> {
                &&& final(self).ids() == old(self).ids().remove(entity)
                &&& final(self).entities() == old(self).entities().remove(old(self).ids()[entity])
            },
            !old(self).ids().contains_key(entity) ==> {
                &&& final(self).ids() == old(self).ids()
                &&& final(self).entities() == old(self).entities()
            },
    {
        match self.entity_to_id.remove(&entity) {
            Some(id) => {
                self.id_to_entity.remove(&id);
            },
            None => {},
        }
    }

    /// The id `entity` holds.
    pub fn get_id(&self, entity: u64) -> (id: Option<u32>)
        ensures
            id == if self.ids().contains_key(entity) {
                Some(self.ids()[entity])
            } else {
                None
            },
    {
        match self.entity_to_id.get(&entity) {
            Some(id) => Some(*id),
            None => None,
        }
    }

    /// The entity holding `id`.
    pub fn get_entity(&self, id: u32) -> (entity: Option<u64>)
        ensures
            entity == if self.entities().contains_key(id) {
                Some(self.entities()[id])
            } else {
                None
            },
    {
        match self.id_to_entity.get(&id) {
            Some(e) => Some(*e),
            None => None,
        }
    }

    /// Number of entities holding an id.
    pub fn entity_count(&self) -> (n: usize)
        ensures
            n == self.ids().len(),
    {
        self.entity_to_id.len()
    }
}

impl Default for EntityIdAllocator {
    fn default() -> (a: Self)
        ensures
            a.next() == 1,
            a.ids() == Map::<u64, u32>::empty(),
            a.entities() == Map::<u32, u64>::empty(),
    {
        Self::new()
    }
}

/// Law: ids are never 0 once started from a nonzero id, and successive
/// allocations hand out successive ids.
pub proof fn law_ids_skip_zero(id: u32)
    ensures
        next_entity_id(id) != 0,
        id < u32::MAX ==> next_entity_id(id) == id + 1,
{
}

/// Law: a freshly allocated id maps to its entity and back.
pub proof fn law_allocate_lookup_both_ways(
    ids: Map<u64, u32>,
    entities: Map<u32, u64>,
    entity: u64,
    id: u32,
)
    ensures
        ids.insert(entity, id)[entity] == id,
        entities.insert(id, entity)[id] == entity,
        ids.insert(entity, id).contains_key(entity),
        entities.insert(id, entity).contains_key(id),
{
}

} // verus!
