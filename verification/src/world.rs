//! A sparse entity registry: stable integer handles mapped to per-entity
//! attribute records.
//!
//! The registry is viewed as a `Map<u64, EntityRecView>` plus the next fresh
//! handle. Handles are never reused: every handle ever returned by
//! [`World::spawn`] is below `next_handle`, so a spawn always yields a handle
//! absent from the map.
use vstd::prelude::*;
use crate::components::EnemyController;
use crate::components::EnemyTag;
use crate::components::Follow;
use crate::components::OwnedBy;
use crate::components::PlayerController;
use crate::components::PlayerTag;
use crate::components::Speed;
use crate::components::Time;
use crate::components::TimerTag;
use crate::components::Velocity;
use crate::fixed::Vec2;

verus! {

/// One entity's attributes. An attribute an entity does not carry is `None`;
/// the per-tick systems act on exactly the entities that carry the attributes
/// they read.
#[derive(Debug, Clone, PartialEq)]
pub struct EntityRec {
    /// Position in the scene.
    pub transform: Option<Vec2>,
    pub velocity: Option<Velocity>,
    pub speed: Option<Speed>,
    /// The countdown: remaining life in seconds.
    pub time: Option<Time>,
    pub follow: Option<Follow>,
    pub owned_by: Option<OwnedBy>,
    pub player_controller: Option<PlayerController>,
    pub enemy_controller: Option<EnemyController>,
    pub player_tag: Option<PlayerTag>,
    pub enemy_tag: Option<EnemyTag>,
    pub timer_tag: Option<TimerTag>,
    /// Display text of a label entity.
    pub text: Option<String>,
}

/// The mathematical value of an [`EntityRec`]: the text as its characters.
#[verifier::ext_equal]
pub struct EntityRecView {
    pub transform: Option<Vec2>,
    pub velocity: Option<Velocity>,
    pub speed: Option<Speed>,
    pub time: Option<Time>,
    pub follow: Option<Follow>,
    pub owned_by: Option<OwnedBy>,
    pub player_controller: Option<PlayerController>,
    pub enemy_controller: Option<EnemyController>,
    pub player_tag: Option<PlayerTag>,
    pub enemy_tag: Option<EnemyTag>,
    pub timer_tag: Option<TimerTag>,
    pub text: Option<Seq<char>>,
}

impl View for EntityRec {
    type V = EntityRecView;

    open spec fn view(&self) -> EntityRecView {
        EntityRecView {
            transform: self.transform,
            velocity: self.velocity,
            speed: self.speed,
            time: self.time,
            follow: self.follow,
            owned_by: self.owned_by,
            player_controller: self.player_controller,
            enemy_controller: self.enemy_controller,
            player_tag: self.player_tag,
            enemy_tag: self.enemy_tag,
            timer_tag: self.timer_tag,
            text: match &self.text {
                Some(t) => Some(t@),
                None => None,
            },
        }
    }
}

/// The record of an entity that carries nothing.
pub open spec fn spec_empty_rec() -> EntityRecView {
    EntityRecView {
        transform: None,
        velocity: None,
        speed: None,
        time: None,
        follow: None,
        owned_by: None,
        player_controller: None,
        enemy_controller: None,
        player_tag: None,
        enemy_tag: None,
        timer_tag: None,
        text: None,
    }
}

impl EntityRec {
    /// A record that carries nothing; attributes are filled in by the caller.
    pub fn empty() -> (r: EntityRec)
        ensures
            r@ == spec_empty_rec(),
    {
        EntityRec {
            transform: None,
            velocity: None,
            speed: None,
            time: None,
            follow: None,
            owned_by: None,
            player_controller: None,
            enemy_controller: None,
            player_tag: None,
            enemy_tag: None,
            timer_tag: None,
            text: None,
        }
    }
}

/// A field-for-field copy of a record (the text is cloned).
pub fn clone_rec(rec: &EntityRec) -> (r: EntityRec)
    ensures
        r@ == rec@,
{
    EntityRec {
        transform: rec.transform,
        velocity: rec.velocity,
        speed: rec.speed,
        time: rec.time,
        follow: rec.follow,
        owned_by: rec.owned_by,
        player_controller: rec.player_controller,
        enemy_controller: rec.enemy_controller,
        player_tag: rec.player_tag,
        enemy_tag: rec.enemy_tag,
        timer_tag: rec.timer_tag,
        text: match &rec.text {
            Some(t) => Some(t.clone()),
            None => None,
        },
    }
}

/// The mathematical value of a [`World`].
#[verifier::ext_equal]
pub struct WorldView {
    /// The next handle [`World::spawn`] will hand out.
    pub next_handle: u64,
    /// The live entities.
    pub entities: Map<u64, EntityRecView>,
}

/// The entity store: an association list of (handle, record) pairs with
/// unique handles, all below the allocation counter.
pub struct World {
    next: u64,
    entries: Vec<(u64, EntityRec)>,
}

impl World {
    #[verifier::type_invariant]
    spec fn wf(self) -> bool {
        &&& forall|i: int, j: int|
            0 <= i < j < self.entries@.len() ==> (#[trigger] self.entries@[i]).0 != (
            #[trigger] self.entries@[j]).0
        &&& forall|i: int|
            0 <= i < self.entries@.len() ==> (#[trigger] self.entries@[i]).0 < self.next
    }

    spec fn has_key(self, e: u64) -> bool {
        exists|i: int| 0 <= i < self.entries@.len() && (#[trigger] self.entries@[i]).0 == e
    }

    spec fn index_of(self, e: u64) -> int {
        choose|i: int| 0 <= i < self.entries@.len() && (#[trigger] self.entries@[i]).0 == e
    }
}

impl View for World {
    type V = WorldView;

    closed spec fn view(&self) -> WorldView {
        WorldView {
            next_handle: self.next,
            entities: Map::new(
                |e: u64| self.has_key(e),
                |e: u64| self.entries@[self.index_of(e)].1@,
            ),
        }
    }
}

/// The record at any list position is the map's value for its handle.
proof fn lemma_entry_view(w: &World, i: int)
    requires
        w.wf(),
        0 <= i < w.entries@.len(),
    ensures
        w@.entities.dom().contains(w.entries@[i].0),
        w@.entities[w.entries@[i].0] == w.entries@[i].1@,
{
    let e = w.entries@[i].0;
    assert(w.has_key(e));
    let j = w.index_of(e);
    assert(0 <= j < w.entries@.len() && w.entries@[j].0 == e);
    if i < j {
        assert(false);
    } else if j < i {
        assert(false);
    }
}

impl World {
    /// An empty store. Handles start at 1, so 0 can serve callers as a
    /// never-allocated sentinel.
    pub fn new() -> (w: World)
        ensures
            w@.next_handle == 1,
            w@.entities == Map::<u64, EntityRecView>::empty(),
    {
        let w = World { next: 1, entries: Vec::new() };
        proof {
            assert(w@.entities =~= Map::<u64, EntityRecView>::empty());
        }
        w
    }

    /// The handle the next spawn will hand out.
    pub fn next_handle(&self) -> (r: u64)
        ensures
            r == self@.next_handle,
    {
        self.next
    }

    fn find(&self, e: u64) -> (r: Option<usize>)
        ensures
            match r {
                Some(i) => i < self.entries@.len() && self.entries@[i as int].0 == e,
                None => !self.has_key(e),
            },
    {
        let n = self.entries.len();
        let mut i: usize = 0;
        while i < n
            invariant
                i <= n,
                n == self.entries@.len(),
                forall|j: int| 0 <= j < i ==> (#[trigger] self.entries@[j]).0 != e,
            decreases n - i,
        {
            if self.entries[i].0 == e {
                return Some(i);
            }
            i = i + 1;
        }
        None
    }

    /// Whether an entity is live.
    pub fn contains(&self, e: u64) -> (r: bool)
        ensures
            r == self@.entities.dom().contains(e),
    {
        proof {
            use_type_invariant(&*self);
        }
        match self.find(e) {
            Some(i) => {
                proof {
                    lemma_entry_view(self, i as int);
                }
                true
            },
            None => false,
        }
    }

    /// The record of a live entity.
    pub fn get(&self, e: u64) -> (r: Option<&EntityRec>)
        ensures
            match r {
                Some(rec) => self@.entities.dom().contains(e) && rec@ == self@.entities[e],
                None => !self@.entities.dom().contains(e),
            },
    {
        proof {
            use_type_invariant(&*self);
        }
        match self.find(e) {
            Some(i) => {
                proof {
                    lemma_entry_view(self, i as int);
                }
                Some(&self.entries[i].1)
            },
            None => None,
        }
    }

    /// Creates an entity with the given record and returns its fresh handle.
    pub fn spawn(&mut self, rec: EntityRec) -> (e: u64)
        requires
            old(self)@.next_handle < u64::MAX,
        ensures
            e == old(self)@.next_handle,
            !old(self)@.entities.dom().contains(e),
            final(self)@.next_handle == e + 1,
            final(self)@.entities == old(self)@.entities.insert(e, rec@),
    {
        proof {
            use_type_invariant(&*self);
        }
        let e = self.next;
        self.next = self.next + 1;
        let mut entries: Vec<(u64, EntityRec)> = Vec::new();
        core::mem::swap(&mut entries, &mut self.entries);
        entries.push((e, rec));
        core::mem::swap(&mut entries, &mut self.entries);
        proof {
            let n = old(self).entries@.len() as int;
            assert(self.entries@ =~= old(self).entries@.push((e, rec)));
            assert(!old(self)@.entities.dom().contains(e));
            assert forall|k: u64| #[trigger]
                self.has_key(k) == (old(self).has_key(k) || k == e) by {
                if self.has_key(k) {
                    let i = choose|i: int|
                        0 <= i < self.entries@.len() && (#[trigger] self.entries@[i]).0 == k;
                    if i < n {
                        assert(old(self).entries@[i].0 == k);
                        assert(old(self).has_key(k));
                    }
                }
                if old(self).has_key(k) {
                    let i = choose|i: int|
                        0 <= i < old(self).entries@.len() && (#[trigger] old(
                            self,
                        ).entries@[i]).0 == k;
                    assert(self.entries@[i].0 == k);
                    assert(self.has_key(k));
                }
                if k == e {
                    assert(self.entries@[n].0 == e);
                    assert(self.has_key(k));
                }
            }
            assert forall|k: u64| self@.entities.dom().contains(k) implies self@.entities[k]
                == old(self)@.entities.insert(e, rec@)[k] by {
                if k == e {
                    lemma_entry_view(self, n);
                } else {
                    let i = choose|i: int|
                        0 <= i < old(self).entries@.len() && (#[trigger] old(
                            self,
                        ).entries@[i]).0 == k;
                    lemma_entry_view(self, i);
                    lemma_entry_view(old(self), i);
                }
            }
            assert(self@.entities =~= old(self)@.entities.insert(e, rec@));
        }
        e
    }

    /// Destroys an entity. Destroying an absent handle changes nothing.
    pub fn despawn(&mut self, e: u64)
        ensures
            final(self)@.next_handle == old(self)@.next_handle,
            final(self)@.entities == old(self)@.entities.remove(e),
    {
        proof {
            use_type_invariant(&*self);
        }
        match self.find(e) {
            None => {
                proof {
                    assert(self@.entities =~= old(self)@.entities.remove(e));
                }
            },
            Some(i) => {
                let mut entries: Vec<(u64, EntityRec)> = Vec::new();
                core::mem::swap(&mut entries, &mut self.entries);
                entries.swap_remove(i);
                core::mem::swap(&mut entries, &mut self.entries);
                proof {
                    let n = old(self).entries@.len() as int;
                    let os = old(self).entries@;
                    let ns = self.entries@;
                    assert(ns =~= os.update(i as int, os[n - 1]).drop_last());
                    assert(forall|j: int|
                        0 <= j < n - 1 ==> (#[trigger] ns[j]) == (if j == i {
                            os[n - 1]
                        } else {
                            os[j]
                        }));
                    assert forall|k: u64| #[trigger]
                        self.has_key(k) == (old(self).has_key(k) && k != e) by {
                        if self.has_key(k) {
                            let j = choose|j: int|
                                0 <= j < ns.len() && (#[trigger] ns[j]).0 == k;
                            let f = if j == i {
                                n - 1
                            } else {
                                j
                            };
                            assert(os[f].0 == k);
                            assert(old(self).has_key(k));
                            assert(f != i);
                            assert(k != e);
                        }
                        if old(self).has_key(k) && k != e {
                            let j = choose|j: int|
                                0 <= j < os.len() && (#[trigger] os[j]).0 == k;
                            assert(j != i);
                            if j == n - 1 {
                                assert(i < n - 1);
                                assert(ns[i as int].0 == k);
                                assert(self.has_key(k));
                            } else {
                                assert(ns[j].0 == k);
                                assert(self.has_key(k));
                            }
                        }
                    }
                    assert forall|k: u64| self@.entities.dom().contains(k) implies self@.entities[k]
                        == old(self)@.entities.remove(e)[k] by {
                        let j = choose|j: int| 0 <= j < ns.len() && (#[trigger] ns[j]).0 == k;
                        let f = if j == i {
                            n - 1
                        } else {
                            j
                        };
                        lemma_entry_view(self, j);
                        lemma_entry_view(old(self), f);
                    }
                    assert(self@.entities =~= old(self)@.entities.remove(e));
                }
            },
        }
    }

    /// Replaces the record of a live entity.
    pub fn set(&mut self, e: u64, rec: EntityRec)
        requires
            old(self)@.entities.dom().contains(e),
        ensures
            final(self)@.next_handle == old(self)@.next_handle,
            final(self)@.entities == old(self)@.entities.insert(e, rec@),
    {
        proof {
            use_type_invariant(&*self);
        }
        let r = self.find(e);
        match r {
            None => {
                proof {
                    assert(false);
                }
            },
            Some(i) => {
                let mut entries: Vec<(u64, EntityRec)> = Vec::new();
                core::mem::swap(&mut entries, &mut self.entries);
                vstd::pervasive::VecAdditionalExecFns::set(&mut entries, i, (e, rec));
                core::mem::swap(&mut entries, &mut self.entries);
                proof {
                    let os = old(self).entries@;
                    let ns = self.entries@;
                    assert(ns =~= os.update(i as int, (e, rec)));
                    assert forall|k: u64| #[trigger]
                        self.has_key(k) == old(self).has_key(k) by {
                        if self.has_key(k) {
                            let j = choose|j: int|
                                0 <= j < ns.len() && (#[trigger] ns[j]).0 == k;
                            if j == i {
                                assert(os[i as int].0 == e);
                                assert(old(self).has_key(k));
                            } else {
                                assert(os[j].0 == k);
                                assert(old(self).has_key(k));
                            }
                        }
                        if old(self).has_key(k) {
                            let j = choose|j: int|
                                0 <= j < os.len() && (#[trigger] os[j]).0 == k;
                            if j == i {
                                assert(ns[i as int].0 == e);
                                assert(self.has_key(k));
                            } else {
                                assert(ns[j].0 == k);
                                assert(self.has_key(k));
                            }
                        }
                    }
                    assert forall|k: u64| self@.entities.dom().contains(k) implies self@.entities[k]
                        == old(self)@.entities.insert(e, rec@)[k] by {
                        if k == e {
                            lemma_entry_view(self, i as int);
                        } else {
                            let j = choose|j: int|
                                0 <= j < ns.len() && (#[trigger] ns[j]).0 == k;
                            assert(j != i);
                            lemma_entry_view(self, j);
                            lemma_entry_view(old(self), j);
                        }
                    }
                    assert(self@.entities =~= old(self)@.entities.insert(e, rec@));
                }
            },
        }
    }

    /// The handles of all live entities, each exactly once.
    pub fn keys(&self) -> (r: Vec<u64>)
        ensures
            r@.no_duplicates(),
            forall|k: u64| #[trigger] r@.contains(k) <==> self@.entities.dom().contains(k),
    {
        proof {
            use_type_invariant(&*self);
        }
        let n = self.entries.len();
        let mut r: Vec<u64> = Vec::new();
        let mut i: usize = 0;
        while i < n
            invariant
                i <= n,
                n == self.entries@.len(),
                r@.len() == i,
                forall|j: int| 0 <= j < i ==> r@[j] == (#[trigger] self.entries@[j]).0,
            decreases n - i,
        {
            r.push(self.entries[i].0);
            i = i + 1;
        }
        proof {
            assert forall|k: u64| #[trigger] r@.contains(k) <==> self@.entities.dom().contains(
                k,
            ) by {
                if r@.contains(k) {
                    let j = choose|j: int| 0 <= j < r@.len() && r@[j] == k;
                    assert(self.entries@[j].0 == k);
                    assert(self.has_key(k));
                }
                if self.has_key(k) {
                    let j = choose|j: int|
                        0 <= j < self.entries@.len() && (#[trigger] self.entries@[j]).0 == k;
                    assert(r@[j] == k);
                    assert(r@.contains(k));
                }
            }
            assert forall|i1: int, j1: int| 0 <= i1 < j1 < r@.len() implies r@[i1] != r@[j1] by {
                assert(self.entries@[i1].0 != self.entries@[j1].0);
            }
        }
        r
    }
}

} // verus!
