use physics_sync::{
    ChangeKind, ChangeSets, CollisionType, ComponentChange, ContactPair, EntityId,
    EntityRecord, Handle, PhysicsState, RawContact, receive,
};

fn with_colliders(list: &[(u32, Handle)]) -> PhysicsState {
    let mut physics = PhysicsState::new(Handle::new(0, 0));
    let live: Vec<EntityRecord> = list
        .iter()
        .map(|&(i, _)| EntityRecord {
            entity: EntityId::new(i, 1),
            has_transform: true,
            has_rigidbody: false,
            has_collider: true,
        })
        .collect();
    let evs: Vec<ComponentChange> =
        list.iter().map(|&(i, _)| ComponentChange { kind: ChangeKind::Inserted, index: i }).collect();
    let own = ChangeSets::from_events(&evs);
    let ci = physics.begin_collider_send(&own, &live);
    let created: Vec<Handle> = list.iter().map(|&(_, h)| h).collect();
    physics.finish_collider_send(&own, &ChangeSets::empty(), &live, &ci.create, &created);
    physics
}

#[test]
fn started_contact_between_entities_carries_both() {
    let (ha, hb) = (Handle::new(1, 0), Handle::new(2, 0));
    let physics = with_colliders(&[(10, ha), (11, hb)]);
    let c = RawContact::Started(ha, hb, Some(ContactPair { handle_a: ha, handle_b: hb, normal: Some((0.0f64, 1.0f64)) }));
    let ev = physics.translate_contact(c).unwrap().unwrap();
    assert_eq!(ev.ty, CollisionType::Started);
    assert_eq!(ev.entity_a, Some(EntityId::new(10, 1)));
    assert_eq!(ev.entity_b, Some(EntityId::new(11, 1)));
    assert_eq!((ev.collider_handle_a, ev.collider_handle_b), (ha, hb));
    assert_eq!(ev.normal, Some((0.0, 1.0)));
}

#[test]
fn contact_with_unowned_collider_has_one_entity() {
    let (ha, boundary) = (Handle::new(1, 0), Handle::new(9, 0));
    let physics = with_colliders(&[(10, ha)]);
    let c = RawContact::Started(ha, boundary, Some(ContactPair::<(f64, f64)> { handle_a: ha, handle_b: boundary, normal: None }));
    let ev = physics.translate_contact(c).unwrap().unwrap();
    assert_eq!(ev.entity_a, Some(EntityId::new(10, 1)));
    assert_eq!(ev.entity_b, None);
    assert!(ev.normal.is_none());
}

#[test]
fn unresolved_contact_is_an_error() {
    let physics = with_colliders(&[]);
    let (h1, h2) = (Handle::new(1, 0), Handle::new(2, 0));
    let r = physics.translate_contact(RawContact::<(f64, f64)>::Started(h1, h2, None));
    assert!(matches!(r, Err((a, b)) if a == h1 && b == h2));
}

#[test]
fn stopped_contact_dropped_unless_enabled() {
    let (ha, hb) = (Handle::new(1, 0), Handle::new(2, 0));
    let mut physics = with_colliders(&[(10, ha), (11, hb)]);
    let r = physics.translate_contact(RawContact::<(f64, f64)>::Stopped(ha, hb));
    assert!(matches!(r, Ok(None)));
    physics.emit_stopped = true;
    let ev = physics.translate_contact(RawContact::<(f64, f64)>::Stopped(ha, hb)).unwrap().unwrap();
    assert_eq!(ev.ty, CollisionType::Stopped);
    assert_eq!(ev.entity_a, Some(EntityId::new(10, 1)));
    assert_eq!(ev.entity_b, Some(EntityId::new(11, 1)));
}

#[test]
fn each_overlapping_pair_gives_one_event() {
    let hs = [Handle::new(1, 0), Handle::new(2, 0), Handle::new(3, 0)];
    let physics = with_colliders(&[(1, hs[0]), (2, hs[1]), (3, hs[2])]);
    let contacts = vec![
        RawContact::Started(hs[0], hs[1], Some(ContactPair::<(f64, f64)> { handle_a: hs[0], handle_b: hs[1], normal: None })),
        RawContact::Started(hs[1], hs[2], Some(ContactPair::<(f64, f64)> { handle_a: hs[1], handle_b: hs[2], normal: None })),
        RawContact::Stopped(hs[0], hs[2]),
    ];
    let events: Vec<_> = contacts
        .into_iter()
        .filter_map(|c| physics.translate_contact(c).unwrap())
        .collect();
    assert_eq!(events.len(), 2);
    assert!(events.iter().all(|e| e.ty == CollisionType::Started && e.entity_a.is_some() && e.entity_b.is_some()));
}

#[test]
fn receive_keeps_previous_value() {
    let (mut pos, mut last) = ((1.0f64, 2.0f64), (0.0f64, 0.0f64));
    receive(&mut pos, &mut last, Some((3.0, 4.0)));
    assert_eq!((pos, last), ((3.0, 4.0), (1.0, 2.0)));
    receive(&mut pos, &mut last, None);
    assert_eq!((pos, last), ((3.0, 4.0), (1.0, 2.0)));
}
