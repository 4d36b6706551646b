//! Component storages keyed by entity, and the inner join over two of them.
//!
//! Both storages index by slot and keep the generation the component was
//! attached under, so a stale handle reads as absent.
use vstd::prelude::*;
use crate::entity::Entity;

verus! {

/// A component value together with the generation of its owner.
pub struct Stored<T> {
    pub generation: u64,
    pub value: T,
}

/// Storage for a component that most entities carry: one slot per entity index.
pub struct DenseStorage<T> {
    slots: Vec<Option<Stored<T>>>,
}

/// The entities of `m` whose slot index is `index`, removed.
pub open spec fn evict<T>(m: Map<Entity, T>, index: usize) -> Map<Entity, T> {
    Map::new(|k: Entity| m.contains_key(k) && k.index != index, |k: Entity| m[k])
}

/// Entities present in both maps, by increasing slot index below `n`.
pub open spec fn join_prefix<A, B>(a: Map<Entity, A>, b: Map<Entity, B>, n: nat) -> Seq<Entity>
    decreases n,
{
    if n == 0 {
        Seq::empty()
    } else {
        let prev = join_prefix(a, b, (n - 1) as nat);
        if exists|e: Entity| e.index == n - 1 && a.contains_key(e) && b.contains_key(e) {
            prev.push(choose|e: Entity| e.index == n - 1 && a.contains_key(e) && b.contains_key(e))
        } else {
            prev
        }
    }
}

impl<T> DenseStorage<T> {
    /// The components held, by entity.
    pub closed spec fn view(&self) -> Map<Entity, T> {
        Map::new(
            |e: Entity|
                e.index < self.slots@.len() && self.slots@[e.index as int] is Some
                    && self.slots@[e.index as int]->0.generation == e.generation,
            |e: Entity| self.slots@[e.index as int]->0.value,
        )
    }

    /// One past the highest slot index this storage has room for.
    pub closed spec fn capacity(&self) -> nat {
        self.slots@.len()
    }

    pub proof fn lemma_keys_below_capacity(&self)
        ensures
            forall|e: Entity| #[trigger] self@.contains_key(e) ==> e.index < self.capacity(),
            forall|e1: Entity, e2: Entity|
                #[trigger] self@.contains_key(e1) && #[trigger] self@.contains_key(e2)
                    && e1.index == e2.index ==> e1 == e2,
    {
    }

    /// An empty storage.
    pub fn new() -> (r: DenseStorage<T>)
        ensures
            r@ == Map::<Entity, T>::empty(),
    {
        let r = DenseStorage { slots: Vec::new() };
        assert(r@ =~= Map::<Entity, T>::empty());
        r
    }

    /// The component of `e`, or `None` when `e` has none (a stale `e` has none).
    pub fn get(&self, e: Entity) -> (r: Option<&T>)
        ensures
            r == (if self@.contains_key(e) { Some(&self@[e]) } else { None }),
    {
        if e.index < self.slots.len() {
            match &self.slots[e.index] {
                Some(s) => {
                    if s.generation == e.generation {
                        Some(&s.value)
                    } else {
                        None
                    }
                },
                None => None,
            }
        } else {
            None
        }
    }

    /// Whether `e` has a component here.
    pub fn contains(&self, e: Entity) -> (r: bool)
        ensures
            r == self@.contains_key(e),
    {
        self.get(e).is_some()
    }

    /// Attaches `value` to `e`, replacing what its slot held before.
    pub fn insert(&mut self, e: Entity, value: T)
        requires
            e.index < usize::MAX,
        ensures
            final(self)@ == evict(old(self)@, e.index).insert(e, value),
    {
        while self.slots.len() <= e.index
            invariant
                self@ == old(self)@,
                e.index < usize::MAX,
            decreases e.index + 1 - self.slots.len(),
        {
            let ghost before = self@;
            self.slots.push(None);
            assert(self@ =~= before);
        }
        let ghost before = self@;
        self.slots.set(e.index, Some(Stored { generation: e.generation, value }));
        assert(self@ =~= evict(before, e.index).insert(e, value));
    }

    /// Detaches the component of `e` and returns it; a no-op returning `None`
    /// when `e` has none.
    pub fn remove(&mut self, e: Entity) -> (r: Option<T>)
        ensures
            r == (if old(self)@.contains_key(e) { Some(old(self)@[e]) } else { None }),
            final(self)@ == old(self)@.remove(e),
    {
        if e.index < self.slots.len() {
            let present = match &self.slots[e.index] {
                Some(s) => s.generation == e.generation,
                None => false,
            };
            if present {
                let mut taken = None;
                std::mem::swap(&mut taken, &mut self.slots[e.index]);
                proof {
                    assert(self.slots@ == old(self).slots@.update(e.index as int, None));
                }
                assert(self@ =~= old(self)@.remove(e));
                return match taken {
                    Some(s) => Some(s.value),
                    None => None,
                };
            }
        }
        assert(self@ =~= old(self)@.remove(e));
        None
    }
}

/// Storage for a marker component with no payload: presence only.
pub struct NullStorage {
    marks: Vec<Option<u64>>,
}

impl NullStorage {
    /// The entities that carry the marker.
    pub closed spec fn view(&self) -> Set<Entity> {
        Set::new(
            |e: Entity|
                e.index < self.marks@.len() && self.marks@[e.index as int] == Some(e.generation),
        )
    }

    /// An empty storage.
    pub fn new() -> (r: NullStorage)
        ensures
            r@ == Set::<Entity>::empty(),
    {
        let r = NullStorage { marks: Vec::new() };
        assert(r@ =~= Set::<Entity>::empty());
        r
    }

    /// Whether `e` carries the marker.
    pub fn contains(&self, e: Entity) -> (r: bool)
        ensures
            r == self@.contains(e),
    {
        e.index < self.marks.len() && self.marks[e.index] == Some(e.generation)
    }

    /// Marks `e`, dropping any mark that another generation left in its slot.
    pub fn insert(&mut self, e: Entity)
        requires
            e.index < usize::MAX,
        ensures
            final(self)@ == Set::new(|k: Entity| old(self)@.contains(k) && k.index != e.index).insert(e),
    {
        while self.marks.len() <= e.index
            invariant
                self@ == old(self)@,
                e.index < usize::MAX,
            decreases e.index + 1 - self.marks.len(),
        {
            let ghost before = self@;
            self.marks.push(None);
            assert(self@ =~= before);
        }
        let ghost before = self@;
        self.marks.set(e.index, Some(e.generation));
        assert(self@ =~= Set::new(|k: Entity| before.contains(k) && k.index != e.index).insert(e));
    }

    /// Unmarks `e` and says whether it was marked; a no-op when it was not.
    pub fn remove(&mut self, e: Entity) -> (r: bool)
        ensures
            r == old(self)@.contains(e),
            final(self)@ == old(self)@.remove(e),
    {
        if self.contains(e) {
            self.marks.set(e.index, None);
            assert(self@ =~= old(self)@.remove(e));
            true
        } else {
            assert(self@ =~= old(self)@.remove(e));
            false
        }
    }
}

/// The entities present in both storages, in the order of their slots.
pub open spec fn joined<A, B>(a: &DenseStorage<A>, b: &DenseStorage<B>) -> Seq<Entity> {
    join_prefix(a@, b@, a.capacity())
}

/// Inner join: the entities that have a component in `a` and one in `b`, by
/// increasing slot index.
pub fn join<A, B>(a: &DenseStorage<A>, b: &DenseStorage<B>) -> (r: Vec<Entity>)
    ensures
        r@ == joined(a, b),
{
    let mut r: Vec<Entity> = Vec::new();
    let mut i: usize = 0;
    while i < a.slots.len()
        invariant
            i <= a.slots@.len(),
            r@ == join_prefix(a@, b@, i as nat),
        decreases a.slots@.len() - i,
    {
        let mut hit = false;
        if i < b.slots.len() {
            match (&a.slots[i], &b.slots[i]) {
                (Some(x), Some(y)) => {
                    if x.generation == y.generation {
                        let e = Entity { index: i, generation: x.generation };
                        assert(a@.contains_key(e) && b@.contains_key(e));
                        let ghost c = choose|c: Entity|
                            c.index == i && a@.contains_key(c) && b@.contains_key(c);
                        assert(c == e);
                        r.push(e);
                        hit = true;
                    }
                },
                _ => {},
            }
        }
        proof {
            if !hit {
                assert(!exists|e: Entity| e.index == i && a@.contains_key(e) && b@.contains_key(e));
            }
        }
        i = i + 1;
    }
    r
}

proof fn lemma_join_prefix<A, B>(a: Map<Entity, A>, b: Map<Entity, B>, n: nat)
    requires
        forall|e1: Entity, e2: Entity|
            #[trigger] a.contains_key(e1) && #[trigger] a.contains_key(e2) && e1.index == e2.index
                ==> e1 == e2,
    ensures
        forall|e: Entity|
            #[trigger] join_prefix(a, b, n).contains(e) <==> (a.contains_key(e) && b.contains_key(e)
                && e.index < n),
        forall|i: int, j: int|
            0 <= i < j < join_prefix(a, b, n).len() ==> (#[trigger] join_prefix(a, b, n)[i]).index
                < (#[trigger] join_prefix(a, b, n)[j]).index,
    decreases n,
{
    if n > 0 {
        lemma_join_prefix(a, b, (n - 1) as nat);
        let prev = join_prefix(a, b, (n - 1) as nat);
        if exists|e: Entity| e.index == n - 1 && a.contains_key(e) && b.contains_key(e) {
            let c = choose|e: Entity| e.index == n - 1 && a.contains_key(e) && b.contains_key(e);
            let cur = prev.push(c);
            assert(join_prefix(a, b, n) == cur);
            assert forall|e: Entity| #[trigger]
                cur.contains(e) <==> (a.contains_key(e) && b.contains_key(e) && e.index < n) by {
                if a.contains_key(e) && b.contains_key(e) && e.index == n - 1 {
                    assert(cur[cur.len() - 1] == e);
                }
                if cur.contains(e) {
                    let k = choose|k: int| 0 <= k < cur.len() && cur[k] == e;
                    if k < prev.len() {
                        assert(prev.contains(e));
                    }
                }
                if e.index < n - 1 && prev.contains(e) {
                    let k = choose|k: int| 0 <= k < prev.len() && prev[k] == e;
                    assert(cur[k] == e);
                }
            }
            assert forall|i: int, j: int| 0 <= i < j < cur.len() implies (#[trigger] cur[i]).index
                < (#[trigger] cur[j]).index by {
                if j == cur.len() - 1 {
                    assert(prev.contains(cur[i]));
                }
            }
        } else {
            assert(join_prefix(a, b, n) == prev);
        }
    }
}

/// Joining two storages yields exactly the entities present in both, each
/// once and by increasing slot index; joining with an empty storage, on
/// either side, yields nothing.
pub proof fn lemma_join_exact<A, B>(a: &DenseStorage<A>, b: &DenseStorage<B>)
    ensures
        forall|e: Entity|
            #[trigger] joined(a, b).contains(e) <==> (a@.contains_key(e) && b@.contains_key(e)),
        forall|i: int, j: int|
            0 <= i < j < joined(a, b).len() ==> (#[trigger] joined(a, b)[i]).index
                < (#[trigger] joined(a, b)[j]).index,
        joined(a, b).no_duplicates(),
        a@.is_empty() || b@.is_empty() ==> joined(a, b).len() == 0,
{
    a.lemma_keys_below_capacity();
    lemma_join_prefix(a@, b@, a.capacity());
    let s = joined(a, b);
    assert forall|i: int, j: int| 0 <= i < s.len() && 0 <= j < s.len() && i != j implies s[i]
        != s[j] by {
        if i < j {
            assert(s[i].index < s[j].index);
        } else {
            assert(s[j].index < s[i].index);
        }
    }
    if a@.is_empty() || b@.is_empty() {
        if s.len() > 0 {
            assert(s.contains(s[0]));
            assert(a@.dom().contains(s[0]));
            assert(b@.dom().contains(s[0]));
        }
    }
}

/// The entities of `s` that have a component in `m`, in the order of `s`.
pub open spec fn kept_in<T>(s: Seq<Entity>, m: Map<Entity, T>) -> Seq<Entity>
    decreases s.len(),
{
    if s.len() == 0 {
        s
    } else {
        let prev = kept_in(s.drop_last(), m);
        if m.contains_key(s.last()) {
            prev.push(s.last())
        } else {
            prev
        }
    }
}

/// Narrows the result of a join by one more storage: the entities of `ents`
/// that also have a component in `c`, in the order of `ents`. Chaining it
/// after `join` joins any number of storages.
pub fn join_with<C>(ents: &Vec<Entity>, c: &DenseStorage<C>) -> (r: Vec<Entity>)
    ensures
        r@ == kept_in(ents@, c@),
{
    let mut r: Vec<Entity> = Vec::new();
    let mut i: usize = 0;
    while i < ents.len()
        invariant
            i <= ents@.len(),
            r@ == kept_in(ents@.take(i as int), c@),
        decreases ents@.len() - i,
    {
        let e = ents[i];
        proof {
            assert(ents@.take(i + 1).drop_last() =~= ents@.take(i as int));
            assert(ents@.take(i + 1).last() == e);
        }
        if c.contains(e) {
            r.push(e);
        }
        i = i + 1;
    }
    assert(ents@.take(ents@.len() as int) =~= ents@);
    r
}

/// Narrowing a sequence by a storage keeps exactly its entities that have a
/// component there, and keeps a sequence free of duplicates.
pub proof fn lemma_kept_in<T>(s: Seq<Entity>, m: Map<Entity, T>)
    ensures
        forall|e: Entity| #[trigger] kept_in(s, m).contains(e) <==> (s.contains(e) && m.contains_key(e)),
        s.no_duplicates() ==> kept_in(s, m).no_duplicates(),
    decreases s.len(),
{
    if s.len() > 0 {
        let d = s.drop_last();
        lemma_kept_in(d, m);
        let prev = kept_in(d, m);
        let cur = kept_in(s, m);
        assert forall|e: Entity| #[trigger] cur.contains(e) <==> (s.contains(e) && m.contains_key(e)) by {
            if s.contains(e) && e != s.last() {
                let k = choose|k: int| 0 <= k < s.len() && s[k] == e;
                assert(d[k] == e);
                assert(d.contains(e));
            }
            if d.contains(e) {
                let k = choose|k: int| 0 <= k < d.len() && d[k] == e;
                assert(s[k] == e);
            }
            if m.contains_key(s.last()) {
                assert(cur == prev.push(s.last()));
                if cur.contains(e) && e != s.last() {
                    let k = choose|k: int| 0 <= k < cur.len() && cur[k] == e;
                    assert(prev[k] == e);
                }
                if prev.contains(e) {
                    let k = choose|k: int| 0 <= k < prev.len() && prev[k] == e;
                    assert(cur[k] == e);
                }
                assert(cur[cur.len() - 1] == s.last());
            }
        }
        if s.no_duplicates() && m.contains_key(s.last()) {
            assert(d.no_duplicates()) by {
                assert forall|i: int, j: int| 0 <= i < d.len() && 0 <= j < d.len() && i != j implies d[i] != d[j] by {
                    assert(d[i] == s[i] && d[j] == s[j]);
                }
            }
            assert(!d.contains(s.last())) by {
                if d.contains(s.last()) {
                    let k = choose|k: int| 0 <= k < d.len() && d[k] == s.last();
                    assert(s[k] == s[s.len() - 1]);
                }
            }
            assert(!prev.contains(s.last()));
            assert forall|i: int, j: int| 0 <= i < cur.len() && 0 <= j < cur.len() && i != j implies cur[i] != cur[j] by {
                if i == cur.len() - 1 {
                    assert(prev.contains(cur[j]));
                } else if j == cur.len() - 1 {
                    assert(prev.contains(cur[i]));
                }
            }
        } else if s.no_duplicates() {
            assert(d.no_duplicates()) by {
                assert forall|i: int, j: int| 0 <= i < d.len() && 0 <= j < d.len() && i != j implies d[i] != d[j] by {
                    assert(d[i] == s[i] && d[j] == s[j]);
                }
            }
        }
    }
}

/// Joining three storages, by `join` and then `join_with`, yields exactly the
/// entities present in all three, each once.
pub proof fn lemma_join_three<A, B, C>(a: &DenseStorage<A>, b: &DenseStorage<B>, c: &DenseStorage<C>)
    ensures
        forall|e: Entity| #[trigger] kept_in(joined(a, b), c@).contains(e) <==> (a@.contains_key(e)
            && b@.contains_key(e) && c@.contains_key(e)),
        kept_in(joined(a, b), c@).no_duplicates(),
{
    lemma_join_exact(a, b);
    lemma_kept_in(joined(a, b), c@);
}

} // verus!
