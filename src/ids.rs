use vstd::prelude::*;

verus! {

/// Identity of an entity in the component store: a slot index and the
/// generation of that slot. At most one live entity holds a given index.
#[derive(Clone, Copy, Debug, PartialEq, Eq, Structural)]
pub struct EntityId {
    pub index: u32,
    pub generation: i32,
}

/// A solver-issued reference to a body or collider: an arena slot and the
/// generation of that slot.
#[derive(Clone, Copy, Debug, PartialEq, Eq, Structural)]
pub struct Handle {
    pub index: usize,
    pub generation: u64,
}

/// One entry of an entity/handle map.
#[derive(Clone, Copy, Debug, PartialEq, Eq, Structural)]
pub struct Binding {
    pub entity: EntityId,
    pub handle: Handle,
}

impl EntityId {
    pub fn new(index: u32, generation: i32) -> (r: EntityId)
        ensures
            r.index == index,
            r.generation == generation,
    {
        EntityId { index, generation }
    }
}

impl Handle {
    pub fn new(index: usize, generation: u64) -> (r: Handle)
        ensures
            r.index == index,
            r.generation == generation,
    {
        Handle { index, generation }
    }
}

} // verus!
