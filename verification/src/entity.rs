use vstd::prelude::*;

verus! {

/// An opaque handle naming one entity in a `crate::world::World`.
///
/// Identifiers are issued by the store (`World::reserve_entity`,
/// `World::spawn`); `from_id` exists for callers that track identifiers
/// outside the store and hand them back through
/// `WorldBuilder::set_entity`, which deliberately accepts identifiers the
/// store may not know.
#[derive(Clone, Copy, PartialEq, Eq, Structural, Debug, Hash)]
pub struct Entity {
    index: u64,
}

impl Entity {
    /// The numeric identifier behind the handle.
    pub closed spec fn id(self) -> u64 {
        self.index
    }

    /// The handle with the given identifier, at the spec level.
    pub closed spec fn spec_from_id(id: u64) -> Entity {
        Entity { index: id }
    }

    pub fn from_id(id: u64) -> (e: Entity)
        ensures
            e == Entity::spec_from_id(id),
            e.id() == id,
    {
        Entity { index: id }
    }

    pub fn to_id(self) -> (id: u64)
        ensures
            id == self.id(),
    {
        self.index
    }

    /// Handles are equal exactly when their identifiers are.
    pub proof fn lemma_id_injective(a: Entity, b: Entity)
        ensures
            (a == b) <==> (a.id() == b.id()),
    {
    }

    pub proof fn lemma_spec_from_id_id(id: u64)
        ensures
            Entity::spec_from_id(id).id() == id,
    {
    }
}

} // verus!
