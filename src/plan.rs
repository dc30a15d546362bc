use vstd::prelude::*;
use crate::changes::{contains, ChangeSets, EntityRecord};
use crate::handle_map::{handle_of, HandleMap};
use crate::ids::{Binding, EntityId, Handle};

verus! {

/// One pass of outbound sync over the live entities.
#[derive(Clone, Copy, Debug, PartialEq, Eq, Structural)]
pub enum Pass {
    /// Entities whose rigidbody was inserted: a solver body is created.
    BodyCreate,
    /// Entities whose rigidbody was modified: its velocity is pushed.
    BodyVelocity,
    /// Entities whose transform moved, holding a rigidbody not inserted now.
    BodyPosition,
    /// Entities whose collider was inserted: a solver collider is created.
    ColliderCreate,
    /// Entities whose collider was modified.
    ColliderModify,
    /// Entities whose transform moved, holding a collider but no rigidbody,
    /// whose collider was not inserted now.
    ColliderPosition,
}

/// Whether `pass` takes up `rec`, given the changes `own` of the pass's own
/// component table and the changes `moved` of the transform table.
pub open spec fn selects(pass: Pass, rec: EntityRecord, own: ChangeSets, moved: ChangeSets) -> bool {
    let i = rec.entity.index;
    match pass {
        Pass::BodyCreate => rec.has_transform && rec.has_rigidbody && own.inserted@.contains(i),
        Pass::BodyVelocity => rec.has_rigidbody && own.modified@.contains(i),
        Pass::BodyPosition => rec.has_transform && rec.has_rigidbody && moved.touched(i)
            && !own.inserted@.contains(i),
        Pass::ColliderCreate => rec.has_transform && rec.has_collider && own.inserted@.contains(i),
        Pass::ColliderModify => rec.has_collider && own.modified@.contains(i),
        Pass::ColliderPosition => rec.has_transform && rec.has_collider && !rec.has_rigidbody
            && moved.touched(i) && !own.inserted@.contains(i),
    }
}

/// The entities of `live` that `pass` takes up, in the order of `live`.
pub open spec fn selected(live: Seq<EntityRecord>, pass: Pass, own: ChangeSets, moved: ChangeSets) -> Seq<EntityId>
    decreases live.len(),
{
    if live.len() == 0 {
        Seq::empty()
    } else {
        let p = selected(live.drop_last(), pass, own, moved);
        if selects(pass, live.last(), own, moved) {
            p.push(live.last().entity)
        } else {
            p
        }
    }
}

/// The bindings of `m` for those of `es` that are bound, in order.
pub open spec fn found(es: Seq<EntityId>, m: Map<u32, Binding>) -> Seq<Binding>
    decreases es.len(),
{
    if es.len() == 0 {
        Seq::empty()
    } else {
        let p = found(es.drop_last(), m);
        match handle_of(m, es.last()) {
            Some(h) => p.push(Binding { entity: es.last(), handle: h }),
            None => p,
        }
    }
}

/// Those of `es` that `m` does not bind, in order.
pub open spec fn missing(es: Seq<EntityId>, m: Map<u32, Binding>) -> Seq<EntityId>
    decreases es.len(),
{
    if es.len() == 0 {
        Seq::empty()
    } else {
        let p = missing(es.drop_last(), m);
        match handle_of(m, es.last()) {
            Some(h) => p,
            None => p.push(es.last()),
        }
    }
}

/// `m` with the slots of `es` unbound.
pub open spec fn cleared(m: Map<u32, Binding>, es: Seq<EntityId>) -> Map<u32, Binding>
    decreases es.len(),
{
    if es.len() == 0 {
        m
    } else {
        cleared(m, es.drop_last()).remove(es.last().index)
    }
}

/// The handles that unbinding the slots of `es` from `m` one by one takes out.
pub open spec fn stale(m: Map<u32, Binding>, es: Seq<EntityId>) -> Seq<Handle>
    decreases es.len(),
{
    if es.len() == 0 {
        Seq::empty()
    } else {
        let p = stale(m, es.drop_last());
        let c = cleared(m, es.drop_last());
        let i = es.last().index;
        if c.contains_key(i) {
            p.push(c[i].handle)
        } else {
            p
        }
    }
}

/// `m` with each `es[k]` bound to `hs[k]`, in order.
pub open spec fn recorded(m: Map<u32, Binding>, es: Seq<EntityId>, hs: Seq<Handle>) -> Map<u32, Binding>
    decreases es.len(),
{
    if es.len() == 0 || hs.len() == 0 {
        m
    } else {
        recorded(m, es.drop_last(), hs.drop_last()).insert(
            es.last().index,
            Binding { entity: es.last(), handle: hs.last() },
        )
    }
}

/// Whether a live entity at slot `i` still holds the component (a collider
/// if `collider`, else a rigidbody).
pub open spec fn held(live: Seq<EntityRecord>, i: u32, collider: bool) -> bool {
    exists|k: int|
        0 <= k < live.len() && #[trigger] live[k].entity.index == i && (if collider {
            live[k].has_collider
        } else {
            live[k].has_rigidbody
        })
}

/// `m` with the slots of `rs` unbound, except those still held.
pub open spec fn dropped(m: Map<u32, Binding>, rs: Seq<u32>, live: Seq<EntityRecord>, collider: bool) -> Map<u32, Binding>
    decreases rs.len(),
{
    if rs.len() == 0 {
        m
    } else {
        let p = dropped(m, rs.drop_last(), live, collider);
        if held(live, rs.last(), collider) {
            p
        } else {
            p.remove(rs.last())
        }
    }
}

/// The handles that `dropped` takes out, in order.
pub open spec fn dropped_handles(m: Map<u32, Binding>, rs: Seq<u32>, live: Seq<EntityRecord>, collider: bool) -> Seq<Handle>
    decreases rs.len(),
{
    if rs.len() == 0 {
        Seq::empty()
    } else {
        let p = dropped_handles(m, rs.drop_last(), live, collider);
        let c = dropped(m, rs.drop_last(), live, collider);
        let i = rs.last();
        if !held(live, i, collider) && c.contains_key(i) {
            p.push(c[i].handle)
        } else {
            p
        }
    }
}

/// The slots of `rs` that `dropped` finds neither held nor bound, in order.
pub open spec fn unmatched(m: Map<u32, Binding>, rs: Seq<u32>, live: Seq<EntityRecord>, collider: bool) -> Seq<u32>
    decreases rs.len(),
{
    if rs.len() == 0 {
        Seq::empty()
    } else {
        let p = unmatched(m, rs.drop_last(), live, collider);
        let c = dropped(m, rs.drop_last(), live, collider);
        let i = rs.last();
        if !held(live, i, collider) && !c.contains_key(i) {
            p.push(i)
        } else {
            p
        }
    }
}

fn selects_exec(pass: Pass, rec: &EntityRecord, own: &ChangeSets, moved: &ChangeSets) -> (r: bool)
    ensures
        r == selects(pass, *rec, *own, *moved),
{
    let i = rec.entity.index;
    match pass {
        Pass::BodyCreate => rec.has_transform && rec.has_rigidbody && contains(&own.inserted, i),
        Pass::BodyVelocity => rec.has_rigidbody && contains(&own.modified, i),
        Pass::BodyPosition => rec.has_transform && rec.has_rigidbody
            && (contains(&moved.inserted, i) || contains(&moved.modified, i))
            && !contains(&own.inserted, i),
        Pass::ColliderCreate => rec.has_transform && rec.has_collider && contains(&own.inserted, i),
        Pass::ColliderModify => rec.has_collider && contains(&own.modified, i),
        Pass::ColliderPosition => rec.has_transform && rec.has_collider && !rec.has_rigidbody
            && (contains(&moved.inserted, i) || contains(&moved.modified, i))
            && !contains(&own.inserted, i),
    }
}

/// The entities of `live` that `pass` takes up, in order.
pub fn select(live: &Vec<EntityRecord>, pass: Pass, own: &ChangeSets, moved: &ChangeSets) -> (r: Vec<EntityId>)
    ensures
        r@ == selected(live@, pass, *own, *moved),
{
    let mut r: Vec<EntityId> = Vec::new();
    let mut k: usize = 0;
    while k < live.len()
        invariant
            k <= live@.len(),
            r@ == selected(live@.take(k as int), pass, *own, *moved),
        decreases live@.len() - k,
    {
        assert(live@.take(k as int + 1).drop_last() =~= live@.take(k as int));
        if selects_exec(pass, &live[k], own, moved) {
            r.push(live[k].entity);
        }
        k = k + 1;
    }
    assert(live@.take(live@.len() as int) =~= live@);
    r
}

/// Splits `es` into the bindings that `map` holds for them and those it lacks.
pub fn lookup(map: &HandleMap, es: &Vec<EntityId>) -> (r: (Vec<Binding>, Vec<EntityId>))
    requires
        map.wf(),
    ensures
        r.0@ == found(es@, map@),
        r.1@ == missing(es@, map@),
{
    let mut hit: Vec<Binding> = Vec::new();
    let mut miss: Vec<EntityId> = Vec::new();
    let mut k: usize = 0;
    while k < es.len()
        invariant
            map.wf(),
            k <= es@.len(),
            hit@ == found(es@.take(k as int), map@),
            miss@ == missing(es@.take(k as int), map@),
        decreases es@.len() - k,
    {
        assert(es@.take(k as int + 1).drop_last() =~= es@.take(k as int));
        let e = es[k];
        match map.handle_of(e) {
            Some(h) => hit.push(Binding { entity: e, handle: h }),
            None => miss.push(e),
        }
        k = k + 1;
    }
    assert(es@.take(es@.len() as int) =~= es@);
    (hit, miss)
}

/// Unbinds the slots of `es`, returning the handles taken out.
pub fn clear_slots(map: &mut HandleMap, es: &Vec<EntityId>) -> (r: Vec<Handle>)
    requires
        old(map).wf(),
    ensures
        final(map).wf(),
        final(map)@ == cleared(old(map)@, es@),
        r@ == stale(old(map)@, es@),
{
    let mut r: Vec<Handle> = Vec::new();
    let mut k: usize = 0;
    while k < es.len()
        invariant
            map.wf(),
            k <= es@.len(),
            map@ == cleared(old(map)@, es@.take(k as int)),
            r@ == stale(old(map)@, es@.take(k as int)),
        decreases es@.len() - k,
    {
        assert(es@.take(k as int + 1).drop_last() =~= es@.take(k as int));
        if let Some(b) = map.remove(es[k].index) {
            r.push(b.handle);
        }
        k = k + 1;
    }
    assert(es@.take(es@.len() as int) =~= es@);
    r
}

/// Binds each `es[k]` to `hs[k]`, in order.
pub fn record(map: &mut HandleMap, es: &Vec<EntityId>, hs: &Vec<Handle>)
    requires
        old(map).wf(),
        es@.len() == hs@.len(),
    ensures
        final(map).wf(),
        final(map)@ == recorded(old(map)@, es@, hs@),
{
    let mut k: usize = 0;
    while k < es.len()
        invariant
            map.wf(),
            k <= es@.len(),
            es@.len() == hs@.len(),
            map@ == recorded(old(map)@, es@.take(k as int), hs@.take(k as int)),
        decreases es@.len() - k,
    {
        assert(es@.take(k as int + 1).drop_last() =~= es@.take(k as int));
        assert(hs@.take(k as int + 1).drop_last() =~= hs@.take(k as int));
        map.insert(Binding { entity: es[k], handle: hs[k] });
        k = k + 1;
    }
    assert(es@.take(es@.len() as int) =~= es@);
    assert(hs@.take(hs@.len() as int) =~= hs@);
}

fn held_exec(live: &Vec<EntityRecord>, i: u32, collider: bool) -> (r: bool)
    ensures
        r == held(live@, i, collider),
{
    let mut k: usize = 0;
    while k < live.len()
        invariant
            k <= live@.len(),
            forall|j: int|
                0 <= j < k ==> !(#[trigger] live@[j].entity.index == i && (if collider {
                    live@[j].has_collider
                } else {
                    live@[j].has_rigidbody
                })),
        decreases live@.len() - k,
    {
        let rec = &live[k];
        if rec.entity.index == i && (if collider { rec.has_collider } else { rec.has_rigidbody }) {
            return true;
        }
        k = k + 1;
    }
    false
}

/// Unbinds each slot of `rs` that no live entity still holds the component
/// for; returns the handles taken out and the slots that were not bound.
pub fn drop_removed(map: &mut HandleMap, rs: &Vec<u32>, live: &Vec<EntityRecord>, collider: bool) -> (r: (Vec<Handle>, Vec<u32>))
    requires
        old(map).wf(),
    ensures
        final(map).wf(),
        final(map)@ == dropped(old(map)@, rs@, live@, collider),
        r.0@ == dropped_handles(old(map)@, rs@, live@, collider),
        r.1@ == unmatched(old(map)@, rs@, live@, collider),
{
    let mut out: Vec<Handle> = Vec::new();
    let mut lost: Vec<u32> = Vec::new();
    let mut k: usize = 0;
    while k < rs.len()
        invariant
            map.wf(),
            k <= rs@.len(),
            map@ == dropped(old(map)@, rs@.take(k as int), live@, collider),
            out@ == dropped_handles(old(map)@, rs@.take(k as int), live@, collider),
            lost@ == unmatched(old(map)@, rs@.take(k as int), live@, collider),
        decreases rs@.len() - k,
    {
        assert(rs@.take(k as int + 1).drop_last() =~= rs@.take(k as int));
        let i = rs[k];
        if !held_exec(live, i, collider) {
            match map.remove(i) {
                Some(b) => out.push(b.handle),
                None => lost.push(i),
            }
        }
        k = k + 1;
    }
    assert(rs@.take(rs@.len() as int) =~= rs@);
    (out, lost)
}

} // verus!
