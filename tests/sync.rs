use physics_sync::{
    Binding, ChangeKind, ChangeSets, ComponentChange, EntityId, EntityRecord, Handle, HandleMap,
    PhysicsState,
};

fn ent(index: u32) -> EntityId {
    EntityId::new(index, 1)
}

fn rec(index: u32, has_transform: bool, has_rigidbody: bool, has_collider: bool) -> EntityRecord {
    EntityRecord { entity: ent(index), has_transform, has_rigidbody, has_collider }
}

fn changes(list: &[(ChangeKind, u32)]) -> ChangeSets {
    let evs: Vec<ComponentChange> =
        list.iter().map(|&(kind, index)| ComponentChange { kind, index }).collect();
    ChangeSets::from_events(&evs)
}

fn ground() -> Handle {
    Handle::new(0, 0)
}

/// Runs a full rigidbody sync, handing out `fresh` as the new body handles.
fn sync_bodies(
    physics: &mut PhysicsState,
    own: &ChangeSets,
    moved: &ChangeSets,
    live: &Vec<EntityRecord>,
    fresh: &[Handle],
) -> (physics_sync::BodyInserts, physics_sync::BodyUpdates) {
    let inserts = physics.begin_rigidbody_send(own, live);
    let created: Vec<Handle> = fresh[..inserts.create.len()].to_vec();
    let updates = physics.finish_rigidbody_send(own, moved, live, &inserts.create, &created);
    (inserts, updates)
}

#[test]
fn change_sets_partition_and_dedup() {
    let cs = changes(&[
        (ChangeKind::Inserted, 4),
        (ChangeKind::Modified, 4),
        (ChangeKind::Modified, 4),
        (ChangeKind::Removed, 9),
        (ChangeKind::Inserted, 2),
    ]);
    assert_eq!(cs.inserted, vec![4, 2]);
    assert_eq!(cs.modified, vec![4]);
    assert_eq!(cs.removed, vec![9]);
    let none = ChangeSets::empty();
    assert!(none.inserted.is_empty() && none.modified.is_empty() && none.removed.is_empty());
}

#[test]
fn handle_map_insert_get_remove() {
    let mut m = HandleMap::new();
    assert_eq!(m.len(), 0);
    let b = Binding { entity: ent(3), handle: Handle::new(7, 2) };
    assert_eq!(m.insert(b), None);
    assert_eq!(m.get(3), Some(b));
    assert_eq!(m.handle_of(ent(3)), Some(Handle::new(7, 2)));
    assert_eq!(m.handle_of(EntityId::new(3, 2)), None);
    let b2 = Binding { entity: ent(3), handle: Handle::new(8, 0) };
    assert_eq!(m.insert(b2), Some(b));
    assert_eq!(m.len(), 1);
    assert_eq!(m.entity_of(Handle::new(8, 0)), Some(ent(3)));
    assert_eq!(m.entity_of(Handle::new(7, 2)), None);
    assert_eq!(m.remove(3), Some(b2));
    assert_eq!(m.remove(3), None);
    assert_eq!(m.len(), 0);
}

#[test]
fn spawned_ball_gets_body_and_collider() {
    let mut physics = PhysicsState::new(ground());
    let live = vec![rec(3, true, true, true)];
    let rb = changes(&[(ChangeKind::Inserted, 3)]);
    let tf = changes(&[(ChangeKind::Inserted, 3)]);
    let col = changes(&[(ChangeKind::Inserted, 3)]);
    let body = Handle::new(1, 0);
    let (inserts, updates) = sync_bodies(&mut physics, &rb, &tf, &live, &[body]);
    assert_eq!(inserts.create, vec![ent(3)]);
    assert!(inserts.stale.is_empty());
    assert!(updates.velocity.is_empty());
    assert!(updates.remove.is_empty());
    // A body just created from the transform is not moved again.
    assert!(updates.position.is_empty());
    assert!(updates.missing_position.is_empty());
    assert_eq!(physics.bodies.handle_of(ent(3)), Some(body));

    let ci = physics.begin_collider_send(&col, &live);
    assert_eq!(ci.create, vec![ent(3)]);
    assert_eq!(ci.parents[0].body, body);
    assert!(!ci.parents[0].on_ground);
    let cu = physics.finish_collider_send(&col, &tf, &live, &ci.create, &vec![Handle::new(5, 0)]);
    assert!(cu.position.is_empty());
    assert_eq!(physics.colliders.handle_of(ent(3)), Some(Handle::new(5, 0)));
}

#[test]
fn inserted_rigidbody_without_transform_is_skipped() {
    let mut physics = PhysicsState::new(ground());
    let live = vec![rec(3, false, true, false)];
    let rb = changes(&[(ChangeKind::Inserted, 3)]);
    let (inserts, _) = sync_bodies(&mut physics, &rb, &ChangeSets::empty(), &live, &[]);
    assert!(inserts.create.is_empty());
    assert_eq!(physics.bodies.len(), 0);
}

#[test]
fn duplicate_insert_replaces_stale_body() {
    let mut physics = PhysicsState::new(ground());
    let live = vec![rec(3, true, true, false)];
    let rb = changes(&[(ChangeKind::Inserted, 3)]);
    sync_bodies(&mut physics, &rb, &ChangeSets::empty(), &live, &[Handle::new(1, 0)]);
    let (inserts, _) = sync_bodies(&mut physics, &rb, &ChangeSets::empty(), &live, &[Handle::new(2, 0)]);
    assert_eq!(inserts.stale, vec![Handle::new(1, 0)]);
    assert_eq!(physics.bodies.handle_of(ent(3)), Some(Handle::new(2, 0)));
    assert_eq!(physics.bodies.len(), 1);
}

#[test]
fn removed_rigidbody_is_unbound_and_dropped() {
    let mut physics = PhysicsState::new(ground());
    let live = vec![rec(5, true, true, false)];
    let rb = changes(&[(ChangeKind::Inserted, 5)]);
    sync_bodies(&mut physics, &rb, &ChangeSets::empty(), &live, &[Handle::new(4, 1)]);
    // The rigidbody is gone: the entity is alive without one.
    let live = vec![rec(5, true, false, false)];
    let rb = changes(&[(ChangeKind::Removed, 5)]);
    let (_, updates) = sync_bodies(&mut physics, &rb, &ChangeSets::empty(), &live, &[]);
    assert_eq!(updates.remove, vec![Handle::new(4, 1)]);
    assert!(updates.missing_remove.is_empty());
    assert_eq!(physics.bodies.get(5), None);
}

#[test]
fn removed_with_entity_deleted_is_unbound() {
    let mut physics = PhysicsState::new(ground());
    let live = vec![rec(5, true, true, false)];
    sync_bodies(&mut physics, &changes(&[(ChangeKind::Inserted, 5)]), &ChangeSets::empty(), &live, &[Handle::new(4, 1)]);
    let live: Vec<EntityRecord> = Vec::new();
    let (_, updates) =
        sync_bodies(&mut physics, &changes(&[(ChangeKind::Removed, 5)]), &ChangeSets::empty(), &live, &[]);
    assert_eq!(updates.remove, vec![Handle::new(4, 1)]);
    assert_eq!(physics.bodies.len(), 0);
}

#[test]
fn removed_then_reinserted_keeps_new_body() {
    let mut physics = PhysicsState::new(ground());
    let live = vec![rec(5, true, true, false)];
    sync_bodies(&mut physics, &changes(&[(ChangeKind::Inserted, 5)]), &ChangeSets::empty(), &live, &[Handle::new(4, 1)]);
    let rb = changes(&[(ChangeKind::Removed, 5), (ChangeKind::Inserted, 5)]);
    let (inserts, updates) = sync_bodies(&mut physics, &rb, &ChangeSets::empty(), &live, &[Handle::new(6, 0)]);
    assert_eq!(inserts.stale, vec![Handle::new(4, 1)]);
    assert!(updates.remove.is_empty());
    assert_eq!(physics.bodies.handle_of(ent(5)), Some(Handle::new(6, 0)));
}

#[test]
fn missing_bindings_are_reported() {
    let mut physics = PhysicsState::new(ground());
    let live = vec![rec(1, true, true, false), rec(2, true, true, false)];
    let rb = changes(&[(ChangeKind::Modified, 1), (ChangeKind::Removed, 8)]);
    let tf = changes(&[(ChangeKind::Modified, 2)]);
    let (_, updates) = sync_bodies(&mut physics, &rb, &tf, &live, &[]);
    assert_eq!(updates.missing_velocity, vec![ent(1)]);
    assert_eq!(updates.missing_remove, vec![8]);
    assert_eq!(updates.missing_position, vec![ent(2)]);
    assert!(updates.velocity.is_empty() && updates.remove.is_empty() && updates.position.is_empty());
}

#[test]
fn modified_rigidbody_and_moved_transform_are_pushed() {
    let mut physics = PhysicsState::new(ground());
    let live = vec![rec(1, true, true, false), rec(2, true, true, false)];
    let ins = changes(&[(ChangeKind::Inserted, 1), (ChangeKind::Inserted, 2)]);
    sync_bodies(&mut physics, &ins, &ChangeSets::empty(), &live, &[Handle::new(10, 0), Handle::new(11, 0)]);
    let rb = changes(&[(ChangeKind::Modified, 2)]);
    let tf = changes(&[(ChangeKind::Modified, 1)]);
    let (_, updates) = sync_bodies(&mut physics, &rb, &tf, &live, &[]);
    assert_eq!(updates.velocity, vec![Binding { entity: ent(2), handle: Handle::new(11, 0) }]);
    assert_eq!(updates.position, vec![Binding { entity: ent(1), handle: Handle::new(10, 0) }]);
}

#[test]
fn second_sync_without_events_changes_nothing() {
    let mut physics = PhysicsState::new(ground());
    let live = vec![rec(1, true, true, true), rec(2, true, false, true)];
    let ins = changes(&[(ChangeKind::Inserted, 1), (ChangeKind::Inserted, 2)]);
    let rb = changes(&[(ChangeKind::Inserted, 1)]);
    sync_bodies(&mut physics, &rb, &ins, &live, &[Handle::new(10, 0)]);
    let ci = physics.begin_collider_send(&ins, &live);
    physics.finish_collider_send(&ins, &ins, &live, &ci.create, &vec![Handle::new(20, 0), Handle::new(21, 0)]);
    let before = (physics.bodies.get(1), physics.bodies.get(2), physics.colliders.get(1), physics.colliders.get(2));

    let quiet = ChangeSets::empty();
    let (inserts, updates) = sync_bodies(&mut physics, &quiet, &quiet, &live, &[]);
    let ci = physics.begin_collider_send(&quiet, &live);
    let cu = physics.finish_collider_send(&quiet, &quiet, &live, &ci.create, &vec![]);
    let after = (physics.bodies.get(1), physics.bodies.get(2), physics.colliders.get(1), physics.colliders.get(2));
    assert_eq!(before, after);
    assert_eq!((physics.bodies.len(), physics.colliders.len()), (1, 2));
    assert!(inserts.create.is_empty() && inserts.stale.is_empty());
    assert!(updates.velocity.is_empty() && updates.remove.is_empty() && updates.position.is_empty());
    assert!(ci.create.is_empty() && cu.remove.is_empty() && cu.position.is_empty());
}

#[test]
fn collider_without_rigidbody_hangs_from_ground() {
    let mut physics = PhysicsState::new(ground());
    let live = vec![rec(7, true, false, true)];
    let col = changes(&[(ChangeKind::Inserted, 7)]);
    let ci = physics.begin_collider_send(&col, &live);
    assert_eq!(ci.parents[0].body, ground());
    assert!(ci.parents[0].on_ground);
    physics.finish_collider_send(&col, &ChangeSets::empty(), &live, &ci.create, &vec![Handle::new(3, 0)]);
    // Later moves of its transform move the collider itself.
    let tf = changes(&[(ChangeKind::Modified, 7)]);
    let cu = physics.finish_collider_send(&ChangeSets::empty(), &tf, &live, &vec![], &vec![]);
    assert_eq!(cu.position, vec![Binding { entity: ent(7), handle: Handle::new(3, 0) }]);
}

#[test]
fn collider_faults_are_reported() {
    let mut physics = PhysicsState::new(ground());
    let live = vec![rec(1, true, false, true), rec(2, true, true, true)];
    let col = changes(&[(ChangeKind::Modified, 1), (ChangeKind::Removed, 9)]);
    let tf = changes(&[(ChangeKind::Modified, 1), (ChangeKind::Modified, 2)]);
    let cu = physics.finish_collider_send(&col, &tf, &live, &vec![], &vec![]);
    assert_eq!(cu.missing_modify, vec![ent(1)]);
    assert_eq!(cu.missing_remove, vec![9]);
    // Entity 2 has a rigidbody: its collider moves with the body.
    assert_eq!(cu.missing_position, vec![ent(1)]);
}
