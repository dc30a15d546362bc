use vstd::prelude::*;
use crate::changes::{ChangeSets, EntityRecord};
use crate::handle_map::{handle_of, HandleMap};
use crate::ids::{Binding, EntityId, Handle};
use crate::plan::{
    clear_slots, cleared, drop_removed, dropped, dropped_handles, found, lookup, missing, record,
    recorded, select, selected, stale, unmatched, Pass,
};

verus! {

/// The index maps that correlate entities with solver objects: entity to
/// body handle and entity to collider handle, plus the shared immovable body
/// that anchors colliders without a rigidbody of their own.
pub struct PhysicsState {
    pub bodies: HandleMap,
    pub colliders: HandleMap,
    pub ground_body_handle: Handle,
    /// Whether ended contacts are turned into collision events too.
    pub emit_stopped: bool,
}

/// First half of a rigidbody sync: solver bodies to take out (their slots
/// were bound already) and entities to create a body for, in order.
pub struct BodyInserts {
    pub stale: Vec<Handle>,
    pub create: Vec<EntityId>,
}

/// Second half of a rigidbody sync: what to push into the solver, and the
/// entities whose expected binding was missing.
pub struct BodyUpdates {
    /// Bodies whose velocity is set from the entity's rigidbody.
    pub velocity: Vec<Binding>,
    pub missing_velocity: Vec<EntityId>,
    /// Bodies to take out of the solver.
    pub remove: Vec<Handle>,
    pub missing_remove: Vec<u32>,
    /// Bodies whose position is set from the entity's transform.
    pub position: Vec<Binding>,
    pub missing_position: Vec<EntityId>,
}

/// The body a new collider hangs from.
#[derive(Clone, Copy, Debug, PartialEq, Eq, Structural)]
pub struct ColliderParent {
    pub body: Handle,
    /// True when the body is the shared ground: the collider then sits at the
    /// entity's own position rather than at its body's origin.
    pub on_ground: bool,
}

/// First half of a collider sync.
pub struct ColliderInserts {
    pub stale: Vec<Handle>,
    pub create: Vec<EntityId>,
    /// `parents[k]` is the body that `create[k]`'s collider hangs from.
    pub parents: Vec<ColliderParent>,
}

/// Second half of a collider sync.
pub struct ColliderUpdates {
    pub missing_modify: Vec<EntityId>,
    pub remove: Vec<Handle>,
    pub missing_remove: Vec<u32>,
    /// Colliders whose position is set from the entity's transform.
    pub position: Vec<Binding>,
    pub missing_position: Vec<EntityId>,
}

/// The body that a collider of entity `e` hangs from, given the body map `m`.
pub open spec fn parent_of(m: Map<u32, Binding>, ground: Handle, e: EntityId) -> ColliderParent {
    match handle_of(m, e) {
        Some(h) => ColliderParent { body: h, on_ground: false },
        None => ColliderParent { body: ground, on_ground: true },
    }
}

/// The map of a table after a full sync pass: slots of created entities
/// cleared, then bound to the new handles, then removed slots dropped.
pub open spec fn synced(
    m: Map<u32, Binding>,
    live: Seq<EntityRecord>,
    create_pass: Pass,
    own: ChangeSets,
    moved: ChangeSets,
    created: Seq<Handle>,
    collider: bool,
) -> Map<u32, Binding> {
    let es = selected(live, create_pass, own, moved);
    dropped(recorded(cleared(m, es), es, created), own.removed@, live, collider)
}

impl PhysicsState {
    pub open spec fn wf(&self) -> bool {
        self.bodies.wf() && self.colliders.wf()
    }

    /// Empty maps around the solver's ground body.
    pub fn new(ground_body_handle: Handle) -> (r: PhysicsState)
        ensures
            r.wf(),
            r.bodies@ == Map::<u32, Binding>::empty(),
            r.colliders@ == Map::<u32, Binding>::empty(),
            r.ground_body_handle == ground_body_handle,
            !r.emit_stopped,
    {
        PhysicsState {
            bodies: HandleMap::new(),
            colliders: HandleMap::new(),
            ground_body_handle,
            emit_stopped: false,
        }
    }

    /// Starts a rigidbody sync. `own` holds the rigidbody table's changes,
    /// `live` the entities alive now. Every entity with a transform and a
    /// freshly inserted rigidbody gets a body: its slot is unbound here (the
    /// handles taken out are returned as stale) and it is listed for creation.
    pub fn begin_rigidbody_send(&mut self, own: &ChangeSets, live: &Vec<EntityRecord>) -> (r: BodyInserts)
        requires
            old(self).wf(),
        ensures
            final(self).wf(),
            r.create@ == selected(live@, Pass::BodyCreate, *own, *own),
            r.stale@ == stale(old(self).bodies@, r.create@),
            final(self).bodies@ == cleared(old(self).bodies@, r.create@),
            final(self).colliders@ == old(self).colliders@,
            final(self).ground_body_handle == old(self).ground_body_handle,
            final(self).emit_stopped == old(self).emit_stopped,
    {
        let create = select(live, Pass::BodyCreate, own, own);
        let stale = clear_slots(&mut self.bodies, &create);
        BodyInserts { stale, create }
    }

    /// Finishes a rigidbody sync once the solver has made `created[k]` for
    /// each `create[k]`. Binds them, then pushes velocities of modified
    /// rigidbodies, drops bodies whose rigidbody is gone (unless the slot
    /// holds one again), and pushes positions of moved transforms for bodies
    /// not created in this sync.
    pub fn finish_rigidbody_send(
        &mut self,
        own: &ChangeSets,
        moved: &ChangeSets,
        live: &Vec<EntityRecord>,
        create: &Vec<EntityId>,
        created: &Vec<Handle>,
    ) -> (r: BodyUpdates)
        requires
            old(self).wf(),
            create@.len() == created@.len(),
        ensures
            final(self).wf(),
            ({
                let m1 = recorded(old(self).bodies@, create@, created@);
                let m2 = dropped(m1, own.removed@, live@, false);
                let vel = selected(live@, Pass::BodyVelocity, *own, *moved);
                let pos = selected(live@, Pass::BodyPosition, *own, *moved);
                &&& r.velocity@ == found(vel, m1)
                &&& r.missing_velocity@ == missing(vel, m1)
                &&& r.remove@ == dropped_handles(m1, own.removed@, live@, false)
                &&& r.missing_remove@ == unmatched(m1, own.removed@, live@, false)
                &&& r.position@ == found(pos, m2)
                &&& r.missing_position@ == missing(pos, m2)
                &&& final(self).bodies@ == m2
            }),
            final(self).colliders@ == old(self).colliders@,
            final(self).ground_body_handle == old(self).ground_body_handle,
            final(self).emit_stopped == old(self).emit_stopped,
    {
        record(&mut self.bodies, create, created);
        let vel = select(live, Pass::BodyVelocity, own, moved);
        let (velocity, missing_velocity) = lookup(&self.bodies, &vel);
        let (remove, missing_remove) = drop_removed(&mut self.bodies, &own.removed, live, false);
        let pos = select(live, Pass::BodyPosition, own, moved);
        let (position, missing_position) = lookup(&self.bodies, &pos);
        BodyUpdates { velocity, missing_velocity, remove, missing_remove, position, missing_position }
    }

    /// Starts a collider sync, after the rigidbody sync of the same tick.
    /// Every entity with a transform and a freshly inserted collider gets a
    /// collider: its slot is unbound here and it is listed for creation,
    /// hanging from its own body if it has one, else from the ground body.
    pub fn begin_collider_send(&mut self, own: &ChangeSets, live: &Vec<EntityRecord>) -> (r: ColliderInserts)
        requires
            old(self).wf(),
        ensures
            final(self).wf(),
            r.create@ == selected(live@, Pass::ColliderCreate, *own, *own),
            r.stale@ == stale(old(self).colliders@, r.create@),
            r.parents@.len() == r.create@.len(),
            forall|k: int| 0 <= k < r.create@.len() ==>
                r.parents@[k] == parent_of(old(self).bodies@, old(self).ground_body_handle, #[trigger] r.create@[k]),
            final(self).colliders@ == cleared(old(self).colliders@, r.create@),
            final(self).bodies@ == old(self).bodies@,
            final(self).ground_body_handle == old(self).ground_body_handle,
            final(self).emit_stopped == old(self).emit_stopped,
    {
        let create = select(live, Pass::ColliderCreate, own, own);
        let stale = clear_slots(&mut self.colliders, &create);
        let mut parents: Vec<ColliderParent> = Vec::new();
        let mut k: usize = 0;
        while k < create.len()
            invariant
                self.wf(),
                k <= create@.len(),
                parents@.len() == k,
                self.bodies@ == old(self).bodies@,
                self.ground_body_handle == old(self).ground_body_handle,
                forall|j: int| 0 <= j < k ==>
                    parents@[j] == parent_of(self.bodies@, self.ground_body_handle, #[trigger] create@[j]),
            decreases create@.len() - k,
        {
            let p = match self.bodies.handle_of(create[k]) {
                Some(h) => ColliderParent { body: h, on_ground: false },
                None => ColliderParent { body: self.ground_body_handle, on_ground: true },
            };
            parents.push(p);
            k = k + 1;
        }
        ColliderInserts { stale, create, parents }
    }

    /// Finishes a collider sync once the solver has made `created[k]` for
    /// each `create[k]`. Binds them, reports modified colliders without a
    /// binding, drops colliders whose component is gone (unless the slot
    /// holds one again), and pushes positions of moved transforms for
    /// colliders without a rigidbody that were not created in this sync.
    pub fn finish_collider_send(
        &mut self,
        own: &ChangeSets,
        moved: &ChangeSets,
        live: &Vec<EntityRecord>,
        create: &Vec<EntityId>,
        created: &Vec<Handle>,
    ) -> (r: ColliderUpdates)
        requires
            old(self).wf(),
            create@.len() == created@.len(),
        ensures
            final(self).wf(),
            ({
                let m1 = recorded(old(self).colliders@, create@, created@);
                let m2 = dropped(m1, own.removed@, live@, true);
                let md = selected(live@, Pass::ColliderModify, *own, *moved);
                let pos = selected(live@, Pass::ColliderPosition, *own, *moved);
                &&& r.missing_modify@ == missing(md, m1)
                &&& r.remove@ == dropped_handles(m1, own.removed@, live@, true)
                &&& r.missing_remove@ == unmatched(m1, own.removed@, live@, true)
                &&& r.position@ == found(pos, m2)
                &&& r.missing_position@ == missing(pos, m2)
                &&& final(self).colliders@ == m2
            }),
            final(self).bodies@ == old(self).bodies@,
            final(self).ground_body_handle == old(self).ground_body_handle,
            final(self).emit_stopped == old(self).emit_stopped,
    {
        record(&mut self.colliders, create, created);
        let md = select(live, Pass::ColliderModify, own, moved);
        let (_, missing_modify) = lookup(&self.colliders, &md);
        let (remove, missing_remove) = drop_removed(&mut self.colliders, &own.removed, live, true);
        let pos = select(live, Pass::ColliderPosition, own, moved);
        let (position, missing_position) = lookup(&self.colliders, &pos);
        ColliderUpdates { missing_modify, remove, missing_remove, position, missing_position }
    }
}

} // verus!
