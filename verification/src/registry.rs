//! The remote-player registry and the owned entity set.
//!
//! [`Registry`] maps a server-assigned player id to the local entity handle
//! that represents that player; it is viewed as a `Map<u32, u64>`. At most one
//! local entity exists per remote id. [`EntitySet`] tracks every entity the
//! engine created, so scene teardown can destroy each exactly once; it is
//! viewed as a `Set<u64>`.
use vstd::prelude::*;

verus! {

/// The mapping from remote player id to local entity handle.
pub struct Registry {
    entries: Vec<(u32, u64)>,
}

/// A registry without the entries whose entity handle is `e`.
pub open spec fn spec_prune(m: Map<u32, u64>, e: u64) -> Map<u32, u64> {
    Map::new(|k: u32| m.dom().contains(k) && m[k] != e, |k: u32| m[k])
}

impl Registry {
    #[verifier::type_invariant]
    spec fn wf(self) -> bool {
        forall|i: int, j: int|
            0 <= i < j < self.entries@.len() ==> (#[trigger] self.entries@[i]).0 != (
            #[trigger] self.entries@[j]).0
    }

    spec fn has_key(self, id: u32) -> bool {
        exists|i: int| 0 <= i < self.entries@.len() && (#[trigger] self.entries@[i]).0 == id
    }

    spec fn index_of(self, id: u32) -> int {
        choose|i: int| 0 <= i < self.entries@.len() && (#[trigger] self.entries@[i]).0 == id
    }

    /// The number of registered ids (a termination measure for callers).
    pub closed spec fn spec_len(self) -> nat {
        self.entries@.len()
    }
}

impl View for Registry {
    type V = Map<u32, u64>;

    closed spec fn view(&self) -> Map<u32, u64> {
        Map::new(|id: u32| self.has_key(id), |id: u32| self.entries@[self.index_of(id)].1)
    }
}

/// The pair at any list position is a map entry.
proof fn lemma_reg_entry(r: &Registry, i: int)
    requires
        r.wf(),
        0 <= i < r.entries@.len(),
    ensures
        r@.dom().contains(r.entries@[i].0),
        r@[r.entries@[i].0] == r.entries@[i].1,
{
    let id = r.entries@[i].0;
    assert(r.has_key(id));
    let j = r.index_of(id);
    assert(0 <= j < r.entries@.len() && r.entries@[j].0 == id);
    if i < j {
        assert(false);
    } else if j < i {
        assert(false);
    }
}

impl Registry {
    /// An empty registry.
    pub fn new() -> (r: Registry)
        ensures
            r@ == Map::<u32, u64>::empty(),
    {
        let r = Registry { entries: Vec::new() };
        proof {
            assert(r@ =~= Map::<u32, u64>::empty());
        }
        r
    }

    fn find(&self, id: u32) -> (r: Option<usize>)
        ensures
            match r {
                Some(i) => i < self.entries@.len() && self.entries@[i as int].0 == id,
                None => !self.has_key(id),
            },
    {
        let n = self.entries.len();
        let mut i: usize = 0;
        while i < n
            invariant
                i <= n,
                n == self.entries@.len(),
                forall|j: int| 0 <= j < i ==> (#[trigger] self.entries@[j]).0 != id,
            decreases n - i,
        {
            if self.entries[i].0 == id {
                return Some(i);
            }
            i = i + 1;
        }
        None
    }

    /// Whether a remote id is registered.
    pub fn contains(&self, id: u32) -> (r: bool)
        ensures
            r == self@.dom().contains(id),
    {
        proof {
            use_type_invariant(&*self);
        }
        match self.find(id) {
            Some(i) => {
                proof {
                    lemma_reg_entry(self, i as int);
                }
                true
            },
            None => false,
        }
    }

    /// The entity handle registered for a remote id.
    pub fn get(&self, id: u32) -> (r: Option<u64>)
        ensures
            match r {
                Some(e) => self@.dom().contains(id) && self@[id] == e,
                None => !self@.dom().contains(id),
            },
    {
        proof {
            use_type_invariant(&*self);
        }
        match self.find(id) {
            Some(i) => {
                proof {
                    lemma_reg_entry(self, i as int);
                }
                Some(self.entries[i].1)
            },
            None => None,
        }
    }

    /// Registers an entity for a remote id not yet registered.
    pub fn insert(&mut self, id: u32, e: u64)
        requires
            !old(self)@.dom().contains(id),
        ensures
            final(self)@ == old(self)@.insert(id, e),
    {
        proof {
            use_type_invariant(&*self);
        }
        let mut entries: Vec<(u32, u64)> = Vec::new();
        core::mem::swap(&mut entries, &mut self.entries);
        entries.push((id, e));
        core::mem::swap(&mut entries, &mut self.entries);
        proof {
            let n = old(self).entries@.len() as int;
            assert(self.entries@ =~= old(self).entries@.push((id, e)));
            assert forall|i: int| 0 <= i < n implies (#[trigger] old(self).entries@[i]).0 != id by {
                if old(self).entries@[i].0 == id {
                    lemma_reg_entry(old(self), i);
                }
            }
            assert forall|k: u32| #[trigger]
                self.has_key(k) == (old(self).has_key(k) || k == id) by {
                if self.has_key(k) {
                    let i = choose|i: int|
                        0 <= i < self.entries@.len() && (#[trigger] self.entries@[i]).0 == k;
                    if i < n {
                        assert(old(self).entries@[i].0 == k);
                        assert(old(self).has_key(k));
                    }
                }
                if old(self).has_key(k) {
                    let i = choose|i: int|
                        0 <= i < old(self).entries@.len() && (#[trigger] old(
                            self,
                        ).entries@[i]).0 == k;
                    assert(self.entries@[i].0 == k);
                    assert(self.has_key(k));
                }
                if k == id {
                    assert(self.entries@[n].0 == id);
                    assert(self.has_key(k));
                }
            }
            assert forall|k: u32| self@.dom().contains(k) implies self@[k] == old(self)@.insert(
                id,
                e,
            )[k] by {
                if k == id {
                    lemma_reg_entry(self, n);
                } else {
                    let i = choose|i: int|
                        0 <= i < old(self).entries@.len() && (#[trigger] old(
                            self,
                        ).entries@[i]).0 == k;
                    lemma_reg_entry(self, i);
                    lemma_reg_entry(old(self), i);
                }
            }
            assert(self@ =~= old(self)@.insert(id, e));
        }
    }

    /// Unregisters a remote id. Unregistering an absent id changes nothing.
    pub fn remove(&mut self, id: u32)
        ensures
            final(self)@ == old(self)@.remove(id),
            old(self)@.dom().contains(id) ==> final(self).spec_len() < old(self).spec_len(),
    {
        proof {
            use_type_invariant(&*self);
        }
        match self.find(id) {
            None => {
                proof {
                    assert(self@ =~= old(self)@.remove(id));
                }
            },
            Some(i) => {
                let mut entries: Vec<(u32, u64)> = Vec::new();
                core::mem::swap(&mut entries, &mut self.entries);
                entries.swap_remove(i);
                core::mem::swap(&mut entries, &mut self.entries);
                proof {
                    let n = old(self).entries@.len() as int;
                    let os = old(self).entries@;
                    let ns = self.entries@;
                    assert(ns =~= os.update(i as int, os[n - 1]).drop_last());
                    assert forall|k: u32| #[trigger]
                        self.has_key(k) == (old(self).has_key(k) && k != id) by {
                        if self.has_key(k) {
                            let j = choose|j: int| 0 <= j < ns.len() && (#[trigger] ns[j]).0 == k;
                            let f = if j == i {
                                n - 1
                            } else {
                                j
                            };
                            assert(os[f].0 == k);
                            assert(old(self).has_key(k));
                            assert(f != i);
                        }
                        if old(self).has_key(k) && k != id {
                            let j = choose|j: int| 0 <= j < os.len() && (#[trigger] os[j]).0 == k;
                            assert(j != i);
                            if j == n - 1 {
                                assert(ns[i as int].0 == k);
                                assert(self.has_key(k));
                            } else {
                                assert(ns[j].0 == k);
                                assert(self.has_key(k));
                            }
                        }
                    }
                    assert forall|k: u32| self@.dom().contains(k) implies self@[k] == old(
                        self,
                    )@.remove(id)[k] by {
                        let j = choose|j: int| 0 <= j < ns.len() && (#[trigger] ns[j]).0 == k;
                        let f = if j == i {
                            n - 1
                        } else {
                            j
                        };
                        lemma_reg_entry(self, j);
                        lemma_reg_entry(old(self), f);
                    }
                    assert(self@ =~= old(self)@.remove(id));
                }
            },
        }
    }

    /// A remote id registered for the entity handle `e`, if any.
    pub fn key_of_value(&self, e: u64) -> (r: Option<u32>)
        ensures
            match r {
                Some(id) => self@.dom().contains(id) && self@[id] == e,
                None => forall|id: u32| self@.dom().contains(id) ==> self@[id] != e,
            },
    {
        proof {
            use_type_invariant(&*self);
        }
        let n = self.entries.len();
        let mut i: usize = 0;
        while i < n
            invariant
                i <= n,
                n == self.entries@.len(),
                self.wf(),
                forall|j: int| 0 <= j < i ==> (#[trigger] self.entries@[j]).1 != e,
            decreases n - i,
        {
            if self.entries[i].1 == e {
                proof {
                    lemma_reg_entry(self, i as int);
                }
                return Some(self.entries[i].0);
            }
            i = i + 1;
        }
        proof {
            assert forall|id: u32| self@.dom().contains(id) implies self@[id] != e by {
                let j = choose|j: int|
                    0 <= j < self.entries@.len() && (#[trigger] self.entries@[j]).0 == id;
                lemma_reg_entry(self, j);
            }
        }
        None
    }

    /// Unregisters every id registered for the entity handle `e`.
    pub fn remove_value(&mut self, e: u64)
        ensures
            final(self)@ == spec_prune(old(self)@, e),
    {
        proof {
            use_type_invariant(&*self);
        }
        loop
            invariant
                forall|k: u32| #[trigger]
                    self@.dom().contains(k) ==> old(self)@.dom().contains(k) && self@[k] == old(
                        self,
                    )@[k],
                forall|k: u32|
                    old(self)@.dom().contains(k) && old(self)@[k] != e ==> #[trigger] self@.dom().contains(k),
            ensures
                forall|k: u32| #[trigger] self@.dom().contains(k) ==> self@[k] != e,
                forall|k: u32| #[trigger]
                    self@.dom().contains(k) ==> old(self)@.dom().contains(k) && self@[k] == old(
                        self,
                    )@[k],
                forall|k: u32|
                    old(self)@.dom().contains(k) && old(self)@[k] != e ==> #[trigger] self@.dom().contains(k),
            decreases self.spec_len(),
        {
            let found = self.key_of_value(e);
            match found {
                None => {
                    break ;
                },
                Some(id) => {
                    self.remove(id);
                },
            }
        }
        proof {
            assert(self@ =~= spec_prune(old(self)@, e));
        }
    }

    /// Whether no remote id is registered.
    pub fn is_empty(&self) -> (r: bool)
        ensures
            r <==> self@ == Map::<u32, u64>::empty(),
    {
        proof {
            use_type_invariant(&*self);
        }
        if self.entries.len() == 0 {
            proof {
                assert(self@ =~= Map::<u32, u64>::empty());
            }
            true
        } else {
            proof {
                lemma_reg_entry(self, 0);
                assert(self@.dom().contains(self.entries@[0].0));
            }
            false
        }
    }
}

/// The set of entities a screen created and owns.
pub struct EntitySet {
    items: Vec<u64>,
}

impl EntitySet {
    #[verifier::type_invariant]
    spec fn wf(self) -> bool {
        forall|i: int, j: int|
            0 <= i < j < self.items@.len() ==> self.items@[i] != self.items@[j]
    }
}

impl View for EntitySet {
    type V = Set<u64>;

    closed spec fn view(&self) -> Set<u64> {
        Set::new(|e: u64| self.items@.contains(e))
    }
}

impl EntitySet {
    /// An empty set.
    pub fn new() -> (r: EntitySet)
        ensures
            r@ == Set::<u64>::empty(),
    {
        let r = EntitySet { items: Vec::new() };
        proof {
            assert(r@ =~= Set::<u64>::empty());
        }
        r
    }

    fn find(&self, e: u64) -> (r: Option<usize>)
        ensures
            match r {
                Some(i) => i < self.items@.len() && self.items@[i as int] == e,
                None => !self.items@.contains(e),
            },
    {
        let n = self.items.len();
        let mut i: usize = 0;
        while i < n
            invariant
                i <= n,
                n == self.items@.len(),
                forall|j: int| 0 <= j < i ==> self.items@[j] != e,
            decreases n - i,
        {
            if self.items[i] == e {
                return Some(i);
            }
            i = i + 1;
        }
        None
    }

    /// Whether the set holds `e`.
    pub fn contains(&self, e: u64) -> (r: bool)
        ensures
            r == self@.contains(e),
    {
        match self.find(e) {
            Some(_) => true,
            None => false,
        }
    }

    /// Adds `e`; adding a member again changes nothing.
    pub fn insert(&mut self, e: u64)
        ensures
            final(self)@ == old(self)@.insert(e),
    {
        proof {
            use_type_invariant(&*self);
        }
        match self.find(e) {
            Some(_) => {
                proof {
                    assert(self@ =~= old(self)@.insert(e));
                }
            },
            None => {
                let mut items: Vec<u64> = Vec::new();
                core::mem::swap(&mut items, &mut self.items);
                items.push(e);
                core::mem::swap(&mut items, &mut self.items);
                proof {
                    assert(self.items@ =~= old(self).items@.push(e));
                    assert forall|k: u64| #[trigger]
                        self.items@.contains(k) == (old(self).items@.contains(k) || k == e) by {
                        if self.items@.contains(k) {
                            let i = choose|i: int|
                                0 <= i < self.items@.len() && self.items@[i] == k;
                            if i < old(self).items@.len() {
                                assert(old(self).items@[i] == k);
                            }
                        }
                        if old(self).items@.contains(k) {
                            let i = choose|i: int|
                                0 <= i < old(self).items@.len() && old(self).items@[i] == k;
                            assert(self.items@[i] == k);
                        }
                        if k == e {
                            assert(self.items@[old(self).items@.len() as int] == e);
                        }
                    }
                    assert(self@ =~= old(self)@.insert(e));
                }
            },
        }
    }

    /// Removes `e`; removing a non-member changes nothing.
    pub fn remove(&mut self, e: u64)
        ensures
            final(self)@ == old(self)@.remove(e),
    {
        proof {
            use_type_invariant(&*self);
        }
        match self.find(e) {
            None => {
                proof {
                    assert(self@ =~= old(self)@.remove(e));
                }
            },
            Some(i) => {
                let mut items: Vec<u64> = Vec::new();
                core::mem::swap(&mut items, &mut self.items);
                items.swap_remove(i);
                core::mem::swap(&mut items, &mut self.items);
                proof {
                    let n = old(self).items@.len() as int;
                    let os = old(self).items@;
                    let ns = self.items@;
                    assert(ns =~= os.update(i as int, os[n - 1]).drop_last());
                    assert forall|k: u64| #[trigger]
                        ns.contains(k) == (os.contains(k) && k != e) by {
                        if ns.contains(k) {
                            let j = choose|j: int| 0 <= j < ns.len() && ns[j] == k;
                            let f = if j == i {
                                n - 1
                            } else {
                                j
                            };
                            assert(os[f] == k);
                            assert(f != i);
                        }
                        if os.contains(k) && k != e {
                            let j = choose|j: int| 0 <= j < os.len() && os[j] == k;
                            assert(j != i);
                            if j == n - 1 {
                                assert(ns[i as int] == k);
                            } else {
                                assert(ns[j] == k);
                            }
                        }
                    }
                    assert(self@ =~= old(self)@.remove(e));
                }
            },
        }
    }

    /// Tears down every member: each is destroyed exactly once, and the set
    /// is left empty.
    pub fn despawn_all(&mut self, world: &mut crate::world::World)
        ensures
            final(self)@ == Set::<u64>::empty(),
            final(world)@.next_handle == old(world)@.next_handle,
            final(world)@.entities == old(world)@.entities.remove_keys(old(self)@),
    {
        let members = self.items();
        let n = members.len();
        let mut i: usize = 0;
        while i < n
            invariant
                i <= n,
                n == members@.len(),
                members@.no_duplicates(),
                forall|e: u64| #[trigger] members@.contains(e) <==> old(self)@.contains(e),
                self@ == old(self)@,
                world@.next_handle == old(world)@.next_handle,
                forall|k: u64| #[trigger]
                    world@.entities.dom().contains(k) <==> (old(
                        world,
                    )@.entities.dom().contains(k) && !members@.subrange(0, i as int).contains(k)),
                forall|k: u64| #[trigger]
                    world@.entities.dom().contains(k) ==> world@.entities[k] == old(
                        world,
                    )@.entities[k],
            decreases n - i,
        {
            let e = members[i];
            world.despawn(e);
            proof {
                assert(members@.subrange(0, i + 1 as int) =~= members@.subrange(0, i as int).push(
                    e,
                ));
                let s0 = members@.subrange(0, i as int);
                let s1 = members@.subrange(0, i + 1 as int);
                assert forall|k: u64| #[trigger] s1.contains(k) <==> (s0.contains(k) || k == e) by {
                    if s1.contains(k) {
                        let idx = choose|idx: int| 0 <= idx < s1.len() && s1[idx] == k;
                        if idx < i as int {
                            assert(s0[idx] == k);
                        }
                    }
                    if s0.contains(k) {
                        let idx = choose|idx: int| 0 <= idx < s0.len() && s0[idx] == k;
                        assert(s1[idx] == k);
                    }
                    if k == e {
                        assert(s1[i as int] == k);
                    }
                }
            }
            i = i + 1;
        }
        *self = EntitySet::new();
        proof {
            assert(members@.subrange(0, n as int) =~= members@);
            assert(world@.entities =~= old(world)@.entities.remove_keys(old(self)@));
        }
    }

    /// The members, each exactly once.
    pub fn items(&self) -> (r: Vec<u64>)
        ensures
            r@.no_duplicates(),
            forall|e: u64| #[trigger] r@.contains(e) <==> self@.contains(e),
    {
        proof {
            use_type_invariant(&*self);
        }
        let n = self.items.len();
        let mut r: Vec<u64> = Vec::new();
        let mut i: usize = 0;
        while i < n
            invariant
                i <= n,
                n == self.items@.len(),
                r@.len() == i,
                forall|j: int| 0 <= j < i ==> r@[j] == self.items@[j],
            decreases n - i,
        {
            r.push(self.items[i]);
            i = i + 1;
        }
        proof {
            assert(r@ =~= self.items@);
        }
        r
    }
}

} // verus!
