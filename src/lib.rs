//! Bookkeeping and scheduling that keep a component store and a rigid-body
//! solver in step: entity/handle maps, outbound sync plans, contact
//! translation, inbound state copies and a fixed-timestep clock.

pub mod changes;
pub mod clock;
pub mod contacts;
pub mod handle_map;
pub mod ids;
pub mod laws;
pub mod physics;
pub mod plan;

pub use changes::{ChangeKind, ChangeSets, ComponentChange, EntityRecord};
pub use clock::{snap, FramePlan, TickClock, SECOND_US, SNAP_TOLERANCE, TICK};
pub use contacts::{receive, CollisionEvent, CollisionType, ContactPair, RawContact};
pub use handle_map::HandleMap;
pub use ids::{Binding, EntityId, Handle};
pub use physics::{
    BodyInserts, BodyUpdates, ColliderInserts, ColliderParent, ColliderUpdates, PhysicsState,
};
pub use plan::Pass;
