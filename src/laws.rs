use vstd::prelude::*;
use crate::changes::{ChangeSets, EntityRecord};
use crate::clock::{clock_step, fresh_clock, snapped, TickClock, TICK};
use crate::handle_map::handle_of;
use crate::ids::{Binding, EntityId, Handle};
use crate::physics::synced;
use crate::plan::{cleared, dropped, dropped_handles, held, recorded, selected, selects, Pass};

verus! {

/// Whether no two live entities share a slot index, as the component store
/// guarantees.
pub open spec fn distinct_slots(live: Seq<EntityRecord>) -> bool {
    forall|a: int, b: int|
        0 <= a < live.len() && 0 <= b < live.len() && a != b ==> live[a].entity.index != live[b].entity.index
}

/// Whether `s` holds no change at all.
pub open spec fn quiet(s: ChangeSets) -> bool {
    s.inserted@.len() == 0 && s.modified@.len() == 0 && s.removed@.len() == 0
}

/// Whether `e` is the entity of a live record that `pass` takes up.
spec fn picked(live: Seq<EntityRecord>, e: EntityId, pass: Pass, own: ChangeSets, moved: ChangeSets) -> bool {
    exists|j: int| 0 <= j < live.len() && (#[trigger] live[j]).entity == e
        && selects(pass, live[j], own, moved)
}

proof fn lemma_selected_from_live(live: Seq<EntityRecord>, pass: Pass, own: ChangeSets, moved: ChangeSets)
    ensures
        forall|k: int| 0 <= k < selected(live, pass, own, moved).len()
            ==> picked(live, #[trigger] selected(live, pass, own, moved)[k], pass, own, moved),
    decreases live.len(),
{
    if live.len() > 0 {
        let pre = live.drop_last();
        lemma_selected_from_live(pre, pass, own, moved);
        let es = selected(live, pass, own, moved);
        let ps = selected(pre, pass, own, moved);
        assert forall|k: int| 0 <= k < es.len() implies picked(live, #[trigger] es[k], pass, own, moved) by {
            if k < ps.len() {
                assert(picked(pre, ps[k], pass, own, moved));
                let j = choose|j: int| 0 <= j < pre.len() && (#[trigger] pre[j]).entity == ps[k]
                    && selects(pass, pre[j], own, moved);
                assert(live[j] == pre[j]);
                assert(es[k] == ps[k]);
            } else {
                let j = live.len() - 1;
                assert(live[j] == live.last());
            }
        }
    }
}

proof fn lemma_selected_distinct(live: Seq<EntityRecord>, pass: Pass, own: ChangeSets, moved: ChangeSets)
    requires
        distinct_slots(live),
    ensures
        ({
            let es = selected(live, pass, own, moved);
            forall|a: int, b: int| 0 <= a < es.len() && 0 <= b < es.len() && a != b ==> es[a].index != es[b].index
        }),
    decreases live.len(),
{
    if live.len() > 0 {
        let pre = live.drop_last();
        assert(distinct_slots(pre)) by {
            assert forall|a: int, b: int| 0 <= a < pre.len() && 0 <= b < pre.len() && a != b
                implies pre[a].entity.index != pre[b].entity.index by {
                assert(pre[a] == live[a] && pre[b] == live[b]);
            }
        }
        lemma_selected_distinct(pre, pass, own, moved);
        lemma_selected_from_live(pre, pass, own, moved);
        let ps = selected(pre, pass, own, moved);
        assert forall|k: int| 0 <= k < ps.len() implies ps[k].index != live.last().entity.index by {
            assert(picked(pre, ps[k], pass, own, moved));
            let j = choose|j: int| 0 <= j < pre.len() && (#[trigger] pre[j]).entity == ps[k]
                && selects(pass, pre[j], own, moved);
            assert(live[j] == pre[j]);
            assert(live[j].entity.index != live[live.len() - 1].entity.index);
        }
    }
}

proof fn lemma_recorded_binds(m: Map<u32, Binding>, es: Seq<EntityId>, hs: Seq<Handle>, k: int)
    requires
        es.len() == hs.len(),
        0 <= k < es.len(),
        forall|a: int, b: int| 0 <= a < es.len() && 0 <= b < es.len() && a != b ==> es[a].index != es[b].index,
    ensures
        recorded(m, es, hs).contains_key(es[k].index),
        recorded(m, es, hs)[es[k].index] == (Binding { entity: es[k], handle: hs[k] }),
    decreases es.len(),
{
    if k < es.len() - 1 {
        let pe = es.drop_last();
        let ph = hs.drop_last();
        assert(es[k] == pe[k] && hs[k] == ph[k]);
        lemma_recorded_binds(m, pe, ph, k);
        assert(es[k].index != es[es.len() - 1].index);
    }
}

proof fn lemma_dropped_keeps_held(m: Map<u32, Binding>, rs: Seq<u32>, live: Seq<EntityRecord>, collider: bool, i: u32)
    requires
        held(live, i, collider),
    ensures
        dropped(m, rs, live, collider).contains_key(i) == m.contains_key(i),
        m.contains_key(i) ==> dropped(m, rs, live, collider)[i] == m[i],
    decreases rs.len(),
{
    if rs.len() > 0 {
        lemma_dropped_keeps_held(m, rs.drop_last(), live, collider, i);
    }
}

/// An entity holding a transform and a freshly inserted rigidbody is bound to
/// the solver body created for it once the rigidbody sync has finished.
pub proof fn lemma_inserted_body_bound(
    m: Map<u32, Binding>,
    live: Seq<EntityRecord>,
    own: ChangeSets,
    created: Seq<Handle>,
    k: int,
)
    requires
        distinct_slots(live),
        created.len() == selected(live, Pass::BodyCreate, own, own).len(),
        0 <= k < created.len(),
    ensures
        handle_of(
            synced(m, live, Pass::BodyCreate, own, own, created, false),
            selected(live, Pass::BodyCreate, own, own)[k],
        ) == Some(created[k]),
{
    let es = selected(live, Pass::BodyCreate, own, own);
    lemma_selected_distinct(live, Pass::BodyCreate, own, own);
    lemma_selected_from_live(live, Pass::BodyCreate, own, own);
    lemma_recorded_binds(cleared(m, es), es, created, k);
    assert(picked(live, es[k], Pass::BodyCreate, own, own));
    let j = choose|j: int| 0 <= j < live.len() && (#[trigger] live[j]).entity == es[k]
        && selects(Pass::BodyCreate, live[j], own, own);
    assert(live[j].entity.index == es[k].index && live[j].has_rigidbody);
    assert(held(live, es[k].index, false));
    lemma_dropped_keeps_held(recorded(cleared(m, es), es, created), own.removed@, live, false, es[k].index);
}

/// Removing the slots `rs` unbinds each one that no live entity still holds
/// the component for, and hands out the handle that was bound to it.
pub proof fn lemma_removed_slot_released(m: Map<u32, Binding>, rs: Seq<u32>, live: Seq<EntityRecord>, collider: bool, i: u32)
    requires
        rs.contains(i),
        !held(live, i, collider),
    ensures
        !dropped(m, rs, live, collider).contains_key(i),
        m.contains_key(i) ==> dropped_handles(m, rs, live, collider).contains(m[i].handle),
    decreases rs.len(),
{
    let pre = rs.drop_last();
    if pre.contains(i) {
        lemma_removed_slot_released(m, pre, live, collider, i);
        if m.contains_key(i) {
            let p = dropped_handles(m, pre, live, collider);
            let j = choose|j: int| 0 <= j < p.len() && p[j] == m[i].handle;
            assert(dropped_handles(m, rs, live, collider)[j] == m[i].handle);
        }
    } else {
        assert(rs.last() == i) by {
            let j = choose|j: int| 0 <= j < rs.len() && rs[j] == i;
            if j < rs.len() - 1 {
                assert(pre[j] == i);
            }
        }
        lemma_dropped_untouched(m, pre, live, collider, i);
        let p = dropped_handles(m, pre, live, collider);
        if m.contains_key(i) {
            assert(dropped_handles(m, rs, live, collider)[p.len() as int] == m[i].handle);
        }
    }
}

proof fn lemma_dropped_untouched(m: Map<u32, Binding>, rs: Seq<u32>, live: Seq<EntityRecord>, collider: bool, i: u32)
    requires
        !rs.contains(i),
    ensures
        dropped(m, rs, live, collider).contains_key(i) == m.contains_key(i),
        m.contains_key(i) ==> dropped(m, rs, live, collider)[i] == m[i],
    decreases rs.len(),
{
    if rs.len() > 0 {
        let pre = rs.drop_last();
        assert(!pre.contains(i)) by {
            if pre.contains(i) {
                let j = choose|j: int| 0 <= j < pre.len() && pre[j] == i;
                assert(rs[j] == i);
            }
        }
        assert(rs[rs.len() - 1] != i);
        lemma_dropped_untouched(m, pre, live, collider, i);
    }
}

/// A slot whose rigidbody was removed, and which no live entity holds a
/// rigidbody for again, is unbound once the rigidbody sync has finished.
pub proof fn lemma_removed_body_unbound(
    m: Map<u32, Binding>,
    live: Seq<EntityRecord>,
    own: ChangeSets,
    created: Seq<Handle>,
    i: u32,
)
    requires
        own.removed@.contains(i),
        !held(live, i, false),
    ensures
        !synced(m, live, Pass::BodyCreate, own, own, created, false).contains_key(i),
{
    let es = selected(live, Pass::BodyCreate, own, own);
    lemma_removed_slot_released(recorded(cleared(m, es), es, created), own.removed@, live, false, i);
}

proof fn lemma_quiet_selects_nothing(live: Seq<EntityRecord>, pass: Pass, own: ChangeSets, moved: ChangeSets)
    requires
        quiet(own),
        quiet(moved),
    ensures
        selected(live, pass, own, moved).len() == 0,
    decreases live.len(),
{
    if live.len() > 0 {
        lemma_quiet_selects_nothing(live.drop_last(), pass, own, moved);
    }
}

/// A sync that sees no change leaves both maps as they were, and selects no
/// entity for any pass: no solver object is created, moved or dropped.
pub proof fn lemma_quiet_sync_is_idle(
    bodies: Map<u32, Binding>,
    colliders: Map<u32, Binding>,
    live: Seq<EntityRecord>,
    own: ChangeSets,
    moved: ChangeSets,
)
    requires
        quiet(own),
        quiet(moved),
    ensures
        synced(bodies, live, Pass::BodyCreate, own, own, Seq::empty(), false) == bodies,
        synced(colliders, live, Pass::ColliderCreate, own, own, Seq::empty(), true) == colliders,
        forall|pass: Pass| #[trigger] selected(live, pass, own, moved).len() == 0,
{
    lemma_quiet_selects_nothing(live, Pass::BodyCreate, own, own);
    lemma_quiet_selects_nothing(live, Pass::ColliderCreate, own, own);
    assert forall|pass: Pass| #[trigger] selected(live, pass, own, moved).len() == 0 by {
        lemma_quiet_selects_nothing(live, pass, own, moved);
    }
}

/// The clock after a run of frames of the given lengths.
pub open spec fn run_frames(s: TickClock, deltas: Seq<u64>) -> TickClock
    decreases deltas.len(),
{
    if deltas.len() == 0 {
        s
    } else {
        clock_step(run_frames(s, deltas.drop_last()), deltas.last()).0
    }
}

/// The snapped lengths of a run of frames, summed.
pub open spec fn total_snapped(deltas: Seq<u64>) -> int
    decreases deltas.len(),
{
    if deltas.len() == 0 {
        0
    } else {
        total_snapped(deltas.drop_last()) + snapped(deltas.last())
    }
}

/// From a fresh clock, the tick count and pending time after a run of frames
/// depend on the frame lengths alone: the ticks run are the whole ticks in
/// the snapped time, and what is left over is the remainder, short of one
/// tick.
pub proof fn lemma_clock_trajectory(deltas: Seq<u64>)
    requires
        total_snapped(deltas) / (TICK as int) <= u128::MAX,
    ensures
        run_frames(fresh_clock(), deltas).ticks == total_snapped(deltas) / (TICK as int),
        run_frames(fresh_clock(), deltas).accumulator == total_snapped(deltas) % (TICK as int),
    decreases deltas.len(),
{
    if deltas.len() > 0 {
        let pre = deltas.drop_last();
        let d = deltas.last();
        let t = total_snapped(pre);
        let sd = snapped(d);
        assert(sd >= 0);
        assert(t / (TICK as int) <= total_snapped(deltas) / (TICK as int)) by (nonlinear_arith)
            requires t <= t + sd, total_snapped(deltas) == t + sd, TICK as int > 0;
        lemma_total_nonneg(pre);
        lemma_clock_trajectory(pre);
        let s = run_frames(fresh_clock(), pre);
        let q = t / (TICK as int);
        let r = t % (TICK as int);
        let acc = r + sd;
        assert(q * (TICK as int) + r == t && 0 <= r < TICK as int) by (nonlinear_arith)
            requires q == t / (TICK as int), r == t % (TICK as int), t >= 0, TICK as int > 0;
        assert(q + acc / (TICK as int) == (t + sd) / (TICK as int)
            && acc % (TICK as int) == (t + sd) % (TICK as int)) by (nonlinear_arith)
            requires q * (TICK as int) + r == t, 0 <= r, acc == r + sd, sd >= 0, TICK as int > 0;
    }
}

proof fn lemma_total_nonneg(deltas: Seq<u64>)
    ensures
        total_snapped(deltas) >= 0,
    decreases deltas.len(),
{
    if deltas.len() > 0 {
        lemma_total_nonneg(deltas.drop_last());
    }
}

} // verus!
