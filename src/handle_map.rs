use vstd::prelude::*;
use crate::ids::{Binding, EntityId, Handle};

verus! {

/// A map from entity slot index to the entity and the solver handle bound to
/// it. Each slot index appears at most once.
pub struct HandleMap {
    entries: Vec<Binding>,
    contents: Ghost<Map<u32, Binding>>,
}

impl View for HandleMap {
    type V = Map<u32, Binding>;

    closed spec fn view(&self) -> Map<u32, Binding> {
        self.contents@
    }
}

impl HandleMap {
    pub closed spec fn wf(&self) -> bool {
        &&& forall|k: int|
            0 <= k < self.entries@.len() ==> {
                &&& #[trigger] self.contents@.contains_key(self.entries@[k].entity.index)
                &&& self.contents@[self.entries@[k].entity.index] == self.entries@[k]
            }
        &&& forall|i: u32|
            #[trigger] self.contents@.contains_key(i) ==> exists|k: int|
                0 <= k < self.entries@.len() && #[trigger] self.entries@[k].entity.index == i
        &&& forall|a: int, b: int|
            0 <= a < self.entries@.len() && 0 <= b < self.entries@.len() && a != b
                ==> self.entries@[a].entity.index != self.entries@[b].entity.index
    }

    pub fn new() -> (r: HandleMap)
        ensures
            r.wf(),
            r@ == Map::<u32, Binding>::empty(),
    {
        HandleMap { entries: Vec::new(), contents: Ghost(Map::empty()) }
    }

    pub fn len(&self) -> (r: usize)
        requires
            self.wf(),
        ensures
            r == self@.len(),
    {
        proof {
            self.lemma_len();
        }
        self.entries.len()
    }

    proof fn lemma_len(&self)
        requires
            self.wf(),
        ensures
            self.entries@.len() == self@.len(),
    {
        let keys = self.contents@.dom();
        let idx = self.entries@.map_values(|b: Binding| b.entity.index);
        assert forall|a: int, b: int| 0 <= a < idx.len() && 0 <= b < idx.len() && a != b
            implies idx[a] != idx[b] by {}
        idx.unique_seq_to_set();
        assert(idx.to_set() =~= keys) by {
            assert forall|i: u32| keys.contains(i) implies idx.to_set().contains(i) by {
                let k = choose|k: int| 0 <= k < self.entries@.len() && #[trigger] self.entries@[k].entity.index == i;
                assert(idx[k] == i);
            }
        }
        assert(self.contents@.dom().finite()) by {
            assert(idx.to_set().finite());
        }
    }

    /// Position of the entry for slot `i`, if any.
    fn find(&self, i: u32) -> (r: Option<usize>)
        requires
            self.wf(),
        ensures
            match r {
                Some(k) => k < self.entries@.len() && self.entries@[k as int].entity.index == i,
                None => !self@.contains_key(i),
            },
    {
        let mut k: usize = 0;
        while k < self.entries.len()
            invariant
                self.wf(),
                k <= self.entries@.len(),
                forall|j: int| 0 <= j < k ==> self.entries@[j].entity.index != i,
            decreases self.entries@.len() - k,
        {
            if self.entries[k].entity.index == i {
                return Some(k);
            }
            k = k + 1;
        }
        None
    }

    /// The binding stored for slot index `i`.
    pub fn get(&self, i: u32) -> (r: Option<Binding>)
        requires
            self.wf(),
        ensures
            r == (if self@.contains_key(i) { Some(self@[i]) } else { None::<Binding> }),
    {
        match self.find(i) {
            Some(k) => Some(self.entries[k]),
            None => None,
        }
    }

    /// The handle bound to exactly this entity (slot and generation).
    pub fn handle_of(&self, e: EntityId) -> (r: Option<Handle>)
        requires
            self.wf(),
        ensures
            r == handle_of(self@, e),
    {
        match self.get(e.index) {
            Some(b) => if b.entity == e {
                Some(b.handle)
            } else {
                None
            },
            None => None,
        }
    }

    /// Removes and returns the binding stored for slot index `i`.
    pub fn remove(&mut self, i: u32) -> (r: Option<Binding>)
        requires
            old(self).wf(),
        ensures
            final(self).wf(),
            r == (if old(self)@.contains_key(i) { Some(old(self)@[i]) } else { None::<Binding> }),
            final(self)@ == old(self)@.remove(i),
    {
        match self.find(i) {
            Some(k) => {
                let ghost pre = self.entries@;
                let b = self.entries.remove(k);
                self.contents = Ghost(self.contents@.remove(i));
                assert forall|j: int| 0 <= j < self.entries@.len() implies
                    #[trigger] self.entries@[j] == (if j < k { pre[j] } else { pre[j + 1] }) by {}
                assert forall|x: u32| #[trigger] self.contents@.contains_key(x) implies exists|j: int|
                    0 <= j < self.entries@.len() && #[trigger] self.entries@[j].entity.index == x by {
                    let j0 = choose|j: int| 0 <= j < pre.len() && #[trigger] pre[j].entity.index == x;
                    if j0 < k {
                        assert(self.entries@[j0].entity.index == x);
                    } else {
                        assert(self.entries@[j0 - 1].entity.index == x);
                    }
                }
                assert forall|j: int| 0 <= j < self.entries@.len() implies {
                    &&& #[trigger] self.contents@.contains_key(self.entries@[j].entity.index)
                    &&& self.contents@[self.entries@[j].entity.index] == self.entries@[j]
                } by {
                    let j1 = if j < k { j } else { j + 1 };
                    assert(pre[j1].entity.index != pre[k as int].entity.index);
                    assert(old(self).contents@.contains_key(pre[j1].entity.index));
                }
                assert forall|a: int, c: int|
                    0 <= a < self.entries@.len() && 0 <= c < self.entries@.len() && a != c
                    implies self.entries@[a].entity.index != self.entries@[c].entity.index by {
                    let a1 = if a < k { a } else { a + 1 };
                    let c1 = if c < k { c } else { c + 1 };
                    assert(pre[a1].entity.index != pre[c1].entity.index);
                }
                Some(b)
            },
            None => {
                assert(self.contents@.remove(i) =~= self.contents@);
                None
            },
        }
    }

    /// Binds `b.entity`'s slot to `b`, returning what was bound there before.
    pub fn insert(&mut self, b: Binding) -> (r: Option<Binding>)
        requires
            old(self).wf(),
        ensures
            final(self).wf(),
            r == (if old(self)@.contains_key(b.entity.index) {
                Some(old(self)@[b.entity.index])
            } else {
                None::<Binding>
            }),
            final(self)@ == old(self)@.insert(b.entity.index, b),
    {
        let prev = self.remove(b.entity.index);
        let ghost pre = self.entries@;
        let ghost mid = self.contents@;
        self.entries.push(b);
        self.contents = Ghost(self.contents@.insert(b.entity.index, b));
        assert forall|x: u32| #[trigger] self.contents@.contains_key(x) implies exists|j: int|
            0 <= j < self.entries@.len() && #[trigger] self.entries@[j].entity.index == x by {
            if x == b.entity.index {
                assert(self.entries@[pre.len() as int].entity.index == x);
            } else {
                let j0 = choose|j: int| 0 <= j < pre.len() && #[trigger] pre[j].entity.index == x;
                assert(self.entries@[j0].entity.index == x);
            }
        }
        assert forall|j: int| 0 <= j < self.entries@.len() implies {
            &&& #[trigger] self.contents@.contains_key(self.entries@[j].entity.index)
            &&& self.contents@[self.entries@[j].entity.index] == self.entries@[j]
        } by {
            if j < pre.len() {
                assert(mid.contains_key(pre[j].entity.index));
            }
        }
        assert forall|a: int, c: int|
            0 <= a < self.entries@.len() && 0 <= c < self.entries@.len() && a != c
            implies self.entries@[a].entity.index != self.entries@[c].entity.index by {
            if a < pre.len() && c < pre.len() {
            } else if a < pre.len() {
                assert(mid.contains_key(pre[a].entity.index));
            } else {
                assert(mid.contains_key(pre[c].entity.index));
            }
        }
        proof {
            let old_map = old(self)@;
            assert(self.contents@ =~= old_map.insert(b.entity.index, b));
        }
        prev
    }

    /// The entity whose binding carries handle `h`, if any.
    pub fn entity_of(&self, h: Handle) -> (r: Option<EntityId>)
        requires
            self.wf(),
        ensures
            match r {
                Some(e) => self@.contains_key(e.index) && self@[e.index] == (Binding { entity: e, handle: h }),
                None => !has_handle(self@, h),
            },
    {
        let mut k: usize = 0;
        while k < self.entries.len()
            invariant
                self.wf(),
                k <= self.entries@.len(),
                forall|j: int| 0 <= j < k ==> self.entries@[j].handle != h,
            decreases self.entries@.len() - k,
        {
            if self.entries[k].handle == h {
                return Some(self.entries[k].entity);
            }
            k = k + 1;
        }
        proof {
            assert forall|i: u32| #[trigger] self@.contains_key(i) implies self@[i].handle != h by {
                let j = choose|j: int| 0 <= j < self.entries@.len() && #[trigger] self.entries@[j].entity.index == i;
            }
        }
        None
    }
}

/// The handle bound to exactly entity `e` in `m`.
pub open spec fn handle_of(m: Map<u32, Binding>, e: EntityId) -> Option<Handle> {
    if m.contains_key(e.index) && m[e.index].entity == e {
        Some(m[e.index].handle)
    } else {
        None
    }
}

/// Whether some binding of `m` carries handle `h`.
pub open spec fn has_handle(m: Map<u32, Binding>, h: Handle) -> bool {
    exists|i: u32| #[trigger] m.contains_key(i) && m[i].handle == h
}

} // verus!
