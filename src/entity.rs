//! Entity identities and the allocator that hands them out.
//!
//! An entity is a slot index paired with a generation. Deleting an entity
//! bumps its slot's generation before the slot is reused, so an old handle
//! never names the slot's next occupant.
use vstd::prelude::*;

verus! {

/// An opaque entity handle: a slot index and the generation it was issued at.
#[derive(Clone, Copy, Debug, PartialEq, Eq, Structural)]
pub struct Entity {
    pub index: usize,
    pub generation: u64,
}

/// Hands out entity identities and recycles the slots of deleted ones.
pub struct Allocator {
    generations: Vec<u64>,
    live: Vec<bool>,
    free: Vec<usize>,
    issued: Ghost<Set<Entity>>,
}

impl Allocator {
    /// The entities that are currently alive.
    pub closed spec fn alive(&self) -> Set<Entity> {
        Set::new(
            |e: Entity|
                e.index < self.live@.len() && self.live@[e.index as int]
                    && self.generations@[e.index as int] == e.generation,
        )
    }

    /// Every entity this allocator has ever handed out.
    pub closed spec fn issued(&self) -> Set<Entity> {
        self.issued@
    }

    /// Number of slots ever used.
    pub closed spec fn slot_count(&self) -> nat {
        self.generations@.len()
    }

    /// A handle that was issued once and no longer names a live entity.
    pub open spec fn is_stale(&self, e: Entity) -> bool {
        self.issued().contains(e) && !self.alive().contains(e)
    }

    pub closed spec fn wf(&self) -> bool {
        &&& self.generations@.len() == self.live@.len()
        &&& self.generations@.len() <= usize::MAX
        &&& forall|e: Entity| #[trigger]
            self.issued@.contains(e) ==> e.index < self.generations@.len()
                && e.generation <= self.generations@[e.index as int]
        &&& forall|i: int|
            0 <= i < self.live@.len() && #[trigger] self.live@[i] ==> self.issued@.contains(
                Entity { index: i as usize, generation: self.generations@[i] },
            )
        &&& forall|k: int|
            0 <= k < self.free@.len() ==> {
                let s = #[trigger] self.free@[k];
                &&& s < self.live@.len()
                &&& !self.live@[s as int]
                &&& !self.issued@.contains(Entity { index: s, generation: self.generations@[s as int] })
            }
        &&& forall|k: int, l: int|
            0 <= k < l < self.free@.len() ==> #[trigger] self.free@[k] != #[trigger] self.free@[l]
    }

    /// Live entities lie in allocated slots, one per slot, and were issued.
    pub proof fn lemma_alive(&self)
        requires
            self.wf(),
        ensures
            self.slot_count() <= usize::MAX,
            forall|e: Entity| #[trigger] self.alive().contains(e) ==> e.index < self.slot_count(),
            forall|e: Entity| #[trigger] self.alive().contains(e) ==> self.issued().contains(e),
            forall|e1: Entity, e2: Entity|
                #[trigger] self.alive().contains(e1) && #[trigger] self.alive().contains(e2)
                    && e1.index == e2.index ==> e1 == e2,
    {
        assert forall|e: Entity| #[trigger] self.alive().contains(e) implies self.issued().contains(e) by {
            assert(self.live@[e.index as int]);
        }
    }

    /// An allocator that has handed out nothing yet.
    pub fn new() -> (r: Allocator)
        ensures
            r.wf(),
            r.alive() == Set::<Entity>::empty(),
            r.issued() == Set::<Entity>::empty(),
            r.slot_count() == 0,
    {
        let r = Allocator {
            generations: Vec::new(),
            live: Vec::new(),
            free: Vec::new(),
            issued: Ghost(Set::empty()),
        };
        assert(r.alive() =~= Set::<Entity>::empty());
        r
    }

    /// Hands out a fresh entity, reusing a recycled slot when one is free.
    pub fn create(&mut self) -> (e: Entity)
        requires
            old(self).wf(),
            old(self).slot_count() < usize::MAX,
        ensures
            final(self).wf(),
            !old(self).issued().contains(e),
            forall|k: Entity| #[trigger] old(self).alive().contains(k) ==> k.index != e.index,
            final(self).issued() == old(self).issued().insert(e),
            final(self).alive() == old(self).alive().insert(e),
            final(self).slot_count() <= old(self).slot_count() + 1,
    {
        let e;
        if self.free.len() > 0 {
            let s = self.free.pop().unwrap();
            assert(s == old(self).free@[old(self).free@.len() - 1]);
            e = Entity { index: s, generation: self.generations[s] };
            self.live.set(s, true);
        } else {
            let s = self.generations.len();
            self.generations.push(0);
            self.live.push(true);
            e = Entity { index: s, generation: 0 };
        }
        self.issued = Ghost(self.issued@.insert(e));
        proof {
            let o = old(self);
            assert forall|k: int| 0 <= k < self.free@.len() implies {
                let s = #[trigger] self.free@[k];
                &&& s < self.live@.len()
                &&& !self.live@[s as int]
                &&& !self.issued@.contains(Entity { index: s, generation: self.generations@[s as int] })
            } by {
                assert(self.free@[k] == o.free@[k]);
                if o.free@.len() > 0 {
                    assert(o.free@[k] != o.free@[o.free@.len() - 1]);
                }
            }
            assert forall|k: int, l: int|
                0 <= k < l < self.free@.len() implies #[trigger] self.free@[k]
                != #[trigger] self.free@[l] by {
                assert(self.free@[k] == o.free@[k]);
                assert(self.free@[l] == o.free@[l]);
            }
            assert(self.alive() =~= o.alive().insert(e));
        }
        e
    }

    /// Number of slots ever used.
    pub fn slots(&self) -> (r: usize)
        requires
            self.wf(),
        ensures
            r == self.slot_count(),
    {
        self.generations.len()
    }

    /// Whether `e` names a live entity.
    pub fn is_alive(&self, e: Entity) -> (r: bool)
        requires
            self.wf(),
        ensures
            r == self.alive().contains(e),
    {
        e.index < self.live.len() && self.live[e.index] && self.generations[e.index]
            == e.generation
    }

    /// Deletes `e` if it is alive. Its slot gets the next generation and is
    /// recycled; a slot whose generation cannot grow any more is retired.
    pub fn delete(&mut self, e: Entity) -> (r: bool)
        requires
            old(self).wf(),
        ensures
            final(self).wf(),
            r == old(self).alive().contains(e),
            final(self).issued() == old(self).issued(),
            final(self).alive() == old(self).alive().remove(e),
            final(self).slot_count() == old(self).slot_count(),
    {
        if !self.is_alive(e) {
            assert(old(self).alive().remove(e) =~= old(self).alive());
            return false;
        }
        let s = e.index;
        self.live.set(s, false);
        if self.generations[s] < u64::MAX {
            let g = self.generations[s] + 1;
            self.generations.set(s, g);
            self.free.push(s);
            proof {
                let o = old(self);
                assert forall|k: int, l: int|
                    0 <= k < l < self.free@.len() implies #[trigger] self.free@[k]
                    != #[trigger] self.free@[l] by {
                    if l == self.free@.len() - 1 {
                        assert(o.live@[o.free@[k] as int] == false);
                    }
                }
                assert forall|i: int|
                    0 <= i < self.live@.len() && #[trigger] self.live@[i] implies self.issued@.contains(
                    Entity { index: i as usize, generation: self.generations@[i] },
                ) by {
                    assert(o.live@[i]);
                }
                assert forall|k: int| 0 <= k < self.free@.len() implies {
                    let s = #[trigger] self.free@[k];
                    &&& s < self.live@.len()
                    &&& !self.live@[s as int]
                    &&& !self.issued@.contains(Entity { index: s, generation: self.generations@[s as int] })
                } by {
                    if k < o.free@.len() {
                        assert(o.free@[k] == self.free@[k]);
                    }
                }
            }
        }
        proof {
            assert(self.alive() =~= old(self).alive().remove(e));
        }
        true
    }
}

} // verus!
