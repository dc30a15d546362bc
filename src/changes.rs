use vstd::prelude::*;
use crate::ids::EntityId;

verus! {

/// What happened to one component of one entity.
#[derive(Clone, Copy, Debug, PartialEq, Eq, Structural)]
pub enum ChangeKind {
    Inserted,
    Modified,
    Removed,
}

/// One entry of a component table's change stream, naming the entity slot.
#[derive(Clone, Copy, Debug, PartialEq, Eq, Structural)]
pub struct ComponentChange {
    pub kind: ChangeKind,
    pub index: u32,
}

/// A live entity of the component store and which of the synchronised
/// components it holds now.
#[derive(Clone, Copy, Debug, PartialEq, Eq, Structural)]
pub struct EntityRecord {
    pub entity: EntityId,
    pub has_transform: bool,
    pub has_rigidbody: bool,
    pub has_collider: bool,
}

/// The slot indices that a stretch of a change stream inserted, modified and
/// removed, each listed once.
#[derive(Debug)]
pub struct ChangeSets {
    pub inserted: Vec<u32>,
    pub modified: Vec<u32>,
    pub removed: Vec<u32>,
}

/// Whether `evs` holds a change of kind `kind` for slot `i`.
pub open spec fn has_change(evs: Seq<ComponentChange>, kind: ChangeKind, i: u32) -> bool {
    exists|k: int| 0 <= k < evs.len() && evs[k] == (ComponentChange { kind, index: i })
}

/// Whether `s` lists an element twice.
pub open spec fn distinct(s: Seq<u32>) -> bool {
    forall|a: int, b: int| 0 <= a < s.len() && 0 <= b < s.len() && a != b ==> s[a] != s[b]
}

/// Whether `v` holds `x`.
pub fn contains(v: &Vec<u32>, x: u32) -> (r: bool)
    ensures
        r == v@.contains(x),
{
    let mut k: usize = 0;
    while k < v.len()
        invariant
            k <= v@.len(),
            forall|j: int| 0 <= j < k ==> v@[j] != x,
        decreases v@.len() - k,
    {
        if v[k] == x {
            return true;
        }
        k = k + 1;
    }
    false
}

fn push_once(v: &mut Vec<u32>, x: u32)
    requires
        distinct(old(v)@),
    ensures
        distinct(final(v)@),
        forall|i: u32| final(v)@.contains(i) <==> (old(v)@.contains(i) || i == x),
{
    if !contains(v, x) {
        v.push(x);
        assert forall|i: u32| v@.contains(i) <==> (old(v)@.contains(i) || i == x) by {
            if old(v)@.contains(i) {
                let j = choose|j: int| 0 <= j < old(v)@.len() && old(v)@[j] == i;
                assert(v@[j] == i);
            }
            if i == x {
                assert(v@[v@.len() - 1] == i);
            }
        }
    }
}

impl ChangeSets {
    /// Sets with no change in them.
    pub fn empty() -> (r: ChangeSets)
        ensures
            r.inserted@ == Seq::<u32>::empty(),
            r.modified@ == Seq::<u32>::empty(),
            r.removed@ == Seq::<u32>::empty(),
    {
        ChangeSets { inserted: Vec::new(), modified: Vec::new(), removed: Vec::new() }
    }

    /// Partitions a stretch of a change stream by kind of change.
    pub fn from_events(evs: &Vec<ComponentChange>) -> (r: ChangeSets)
        ensures
            r.wf(),
            forall|i: u32| r.inserted@.contains(i) <==> has_change(evs@, ChangeKind::Inserted, i),
            forall|i: u32| r.modified@.contains(i) <==> has_change(evs@, ChangeKind::Modified, i),
            forall|i: u32| r.removed@.contains(i) <==> has_change(evs@, ChangeKind::Removed, i),
    {
        let mut r = ChangeSets::empty();
        let mut k: usize = 0;
        while k < evs.len()
            invariant
                k <= evs@.len(),
                r.wf(),
                forall|i: u32| r.inserted@.contains(i) <==> has_change(evs@.take(k as int), ChangeKind::Inserted, i),
                forall|i: u32| r.modified@.contains(i) <==> has_change(evs@.take(k as int), ChangeKind::Modified, i),
                forall|i: u32| r.removed@.contains(i) <==> has_change(evs@.take(k as int), ChangeKind::Removed, i),
            decreases evs@.len() - k,
        {
            let ev = evs[k];
            match ev.kind {
                ChangeKind::Inserted => push_once(&mut r.inserted, ev.index),
                ChangeKind::Modified => push_once(&mut r.modified, ev.index),
                ChangeKind::Removed => push_once(&mut r.removed, ev.index),
            }
            proof {
                let pre = evs@.take(k as int);
                let post = evs@.take(k as int + 1);
                assert forall|kind: ChangeKind, i: u32|
                    has_change(post, kind, i) <==> (has_change(pre, kind, i) || (ev.kind == kind && ev.index == i)) by {
                    if has_change(pre, kind, i) {
                        let j = choose|j: int| 0 <= j < pre.len() && pre[j] == (ComponentChange { kind, index: i });
                        assert(post[j] == pre[j]);
                    }
                    if ev.kind == kind && ev.index == i {
                        assert(post[k as int] == ev);
                    }
                    if has_change(post, kind, i) {
                        let j = choose|j: int| 0 <= j < post.len() && post[j] == (ComponentChange { kind, index: i });
                        if j < k {
                            assert(pre[j] == post[j]);
                        }
                    }
                }
            }
            k = k + 1;
        }
        assert(evs@.take(evs@.len() as int) =~= evs@);
        r
    }

    /// Each set lists a slot at most once.
    pub open spec fn wf(&self) -> bool {
        distinct(self.inserted@) && distinct(self.modified@) && distinct(self.removed@)
    }

    /// Whether slot `i` was inserted or modified.
    pub open spec fn touched(&self, i: u32) -> bool {
        self.inserted@.contains(i) || self.modified@.contains(i)
    }
}

} // verus!
