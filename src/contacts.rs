use vstd::prelude::*;
use crate::handle_map::has_handle;
use crate::ids::{Binding, EntityId, Handle};
use crate::physics::PhysicsState;

verus! {

/// Whether a contact began or ended.
#[derive(Clone, Copy, Debug, PartialEq, Eq, Structural)]
pub enum CollisionType {
    Started,
    Stopped,
}

/// A contact between two colliders as gameplay sees it. `N` is the type of
/// the contact normal, which this library only carries along.
#[derive(Debug)]
pub struct CollisionEvent<N> {
    pub entity_a: Option<EntityId>,
    pub collider_handle_a: Handle,
    pub entity_b: Option<EntityId>,
    pub collider_handle_b: Handle,
    pub normal: Option<N>,
    pub ty: CollisionType,
}

/// A contact pair as the solver resolved it, with the normal of its deepest
/// contact when one was found.
#[derive(Debug)]
pub struct ContactPair<N> {
    pub handle_a: Handle,
    pub handle_b: Handle,
    pub normal: Option<N>,
}

/// A contact event reported by the solver for one step. A started contact
/// carries its resolved pair, or `None` when the solver could not resolve it.
#[derive(Debug)]
pub enum RawContact<N> {
    Started(Handle, Handle, Option<ContactPair<N>>),
    Stopped(Handle, Handle),
}

/// Whether `e` is what the collider map `m` says owns handle `h`: the entity
/// bound to `h`, or `None` when no entity is.
pub open spec fn owns(m: Map<u32, Binding>, h: Handle, e: Option<EntityId>) -> bool {
    match e {
        Some(e) => m.contains_key(e.index) && m[e.index] == (Binding { entity: e, handle: h }),
        None => !has_handle(m, h),
    }
}

impl PhysicsState {
    /// Turns one solver contact event into a collision event. A started
    /// contact whose pair resolved gives a `Started` event with the pair's
    /// handles and normal and the entities owning them; one that did not
    /// resolve gives `Err` with the two handles, and is dropped. An ended
    /// contact gives a `Stopped` event without normal when `emit_stopped` is
    /// set, and nothing otherwise.
    pub fn translate_contact<N>(&self, c: RawContact<N>) -> (r: Result<Option<CollisionEvent<N>>, (Handle, Handle)>)
        requires
            self.wf(),
        ensures
            match c {
                RawContact::Started(h1, h2, None) => r == Err::<Option<CollisionEvent<N>>, (Handle, Handle)>((h1, h2)),
                RawContact::Started(_, _, Some(p)) => match r {
                    Ok(Some(ev)) => {
                        &&& ev.ty == CollisionType::Started
                        &&& ev.collider_handle_a == p.handle_a
                        &&& ev.collider_handle_b == p.handle_b
                        &&& ev.normal == p.normal
                        &&& owns(self.colliders@, p.handle_a, ev.entity_a)
                        &&& owns(self.colliders@, p.handle_b, ev.entity_b)
                    },
                    _ => false,
                },
                RawContact::Stopped(h1, h2) => if self.emit_stopped {
                    match r {
                        Ok(Some(ev)) => {
                            &&& ev.ty == CollisionType::Stopped
                            &&& ev.collider_handle_a == h1
                            &&& ev.collider_handle_b == h2
                            &&& ev.normal.is_none()
                            &&& owns(self.colliders@, h1, ev.entity_a)
                            &&& owns(self.colliders@, h2, ev.entity_b)
                        },
                        _ => false,
                    }
                } else {
                    r == Ok::<Option<CollisionEvent<N>>, (Handle, Handle)>(None)
                },
            },
    {
        match c {
            RawContact::Started(h1, h2, pair) => match pair {
                Some(p) => Ok(Some(CollisionEvent {
                    entity_a: self.colliders.entity_of(p.handle_a),
                    collider_handle_a: p.handle_a,
                    entity_b: self.colliders.entity_of(p.handle_b),
                    collider_handle_b: p.handle_b,
                    normal: p.normal,
                    ty: CollisionType::Started,
                })),
                None => Err((h1, h2)),
            },
            RawContact::Stopped(h1, h2) => if self.emit_stopped {
                Ok(Some(CollisionEvent {
                    entity_a: self.colliders.entity_of(h1),
                    collider_handle_a: h1,
                    entity_b: self.colliders.entity_of(h2),
                    collider_handle_b: h2,
                    normal: None,
                    ty: CollisionType::Stopped,
                }))
            } else {
                Ok(None)
            },
        }
    }
}

/// Copies an authoritative value from the solver into a component field,
/// keeping the value it replaces in `last` for interpolation. Without a value
/// (the handle did not resolve) both stay as they are.
pub fn receive<T: Copy>(current: &mut T, last: &mut T, authoritative: Option<T>)
    ensures
        match authoritative {
            Some(v) => *final(current) == v && *final(last) == *old(current),
            None => *final(current) == *old(current) && *final(last) == *old(last),
        },
{
    if let Some(v) = authoritative {
        *last = *current;
        *current = v;
    }
}

} // verus!
