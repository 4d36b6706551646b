//! The world: owner of the entity allocator, every component storage and the
//! tile grid resource.
use vstd::prelude::*;
use crate::components::{Position, Printable};
use crate::entity::{Allocator, Entity};
use crate::grid::{Furniture, TileGrid};
use crate::storage::{DenseStorage, NullStorage, joined};

verus! {

/// The components a new entity starts with, attached together when it is built.
pub struct EntityBuilder {
    pub position: Option<Position>,
    pub printable: Option<Printable>,
    pub player: bool,
}

impl EntityBuilder {
    /// A builder with no components.
    pub fn new() -> (r: EntityBuilder)
        ensures
            r.position is None,
            r.printable is None,
            !r.player,
    {
        EntityBuilder { position: None, printable: None, player: false }
    }

    pub fn with_position(self, p: Position) -> (r: EntityBuilder)
        ensures
            r == (EntityBuilder { position: Some(p), ..self }),
    {
        EntityBuilder { position: Some(p), ..self }
    }

    pub fn with_printable(self, c: Printable) -> (r: EntityBuilder)
        ensures
            r == (EntityBuilder { printable: Some(c), ..self }),
    {
        EntityBuilder { printable: Some(c), ..self }
    }

    pub fn with_player(self) -> (r: EntityBuilder)
        ensures
            r == (EntityBuilder { player: true, ..self }),
    {
        EntityBuilder { player: true, ..self }
    }
}

/// `m` with `e` given `v`, or unchanged when there is no `v`.
pub open spec fn attach<T>(m: Map<Entity, T>, e: Entity, v: Option<T>) -> Map<Entity, T> {
    match v {
        Some(x) => m.insert(e, x),
        None => m,
    }
}

pub struct World {
    entities: Allocator,
    positions: DenseStorage<Position>,
    printables: DenseStorage<Printable>,
    players: NullStorage,
    grid: Option<TileGrid>,
}

impl World {
    pub closed spec fn alive(&self) -> Set<Entity> {
        self.entities.alive()
    }

    pub closed spec fn issued(&self) -> Set<Entity> {
        self.entities.issued()
    }

    pub closed spec fn entity_slots(&self) -> nat {
        self.entities.slot_count()
    }

    pub closed spec fn positions(&self) -> Map<Entity, Position> {
        self.positions@
    }

    pub closed spec fn printables(&self) -> Map<Entity, Printable> {
        self.printables@
    }

    pub closed spec fn players(&self) -> Set<Entity> {
        self.players@
    }

    /// The tile grid resource, if one is registered.
    pub closed spec fn grid_resource(&self) -> Option<TileGrid> {
        self.grid
    }

    /// The entities that have both a position and a glyph, by slot order.
    pub closed spec fn drawn(&self) -> Seq<Entity> {
        joined(&self.positions, &self.printables)
    }

    /// A handle that was once issued and names no live entity any more.
    pub open spec fn is_stale(&self, e: Entity) -> bool {
        self.issued().contains(e) && !self.alive().contains(e)
    }

    /// Every stored component belongs to a live entity, and a registered
    /// grid is well formed.
    pub closed spec fn wf(&self) -> bool {
        &&& self.entities.wf()
        &&& forall|e: Entity| #[trigger] self.positions@.contains_key(e) ==> self.entities.alive().contains(e)
        &&& forall|e: Entity| #[trigger] self.printables@.contains_key(e) ==> self.entities.alive().contains(e)
        &&& forall|e: Entity| #[trigger] self.players@.contains(e) ==> self.entities.alive().contains(e)
        &&& self.grid matches Some(g) ==> g.wf()
    }

    /// An empty world: no entities and no resources.
    pub fn new() -> (r: World)
        ensures
            r.wf(),
            r.alive() == Set::<Entity>::empty(),
            r.issued() == Set::<Entity>::empty(),
            r.positions() == Map::<Entity, Position>::empty(),
            r.printables() == Map::<Entity, Printable>::empty(),
            r.players() == Set::<Entity>::empty(),
            r.grid_resource() is None,
            r.entity_slots() == 0,
    {
        World {
            entities: Allocator::new(),
            positions: DenseStorage::new(),
            printables: DenseStorage::new(),
            players: NullStorage::new(),
            grid: None,
        }
    }

    /// Creates an entity carrying the builder's components; they are all
    /// attached before the entity is handed back.
    pub fn build_entity(&mut self, b: EntityBuilder) -> (e: Entity)
        requires
            old(self).wf(),
            old(self).entity_slots() < usize::MAX,
        ensures
            final(self).wf(),
            !old(self).issued().contains(e),
            final(self).issued() == old(self).issued().insert(e),
            final(self).alive() == old(self).alive().insert(e),
            final(self).entity_slots() <= old(self).entity_slots() + 1,
            final(self).positions() == attach(old(self).positions(), e, b.position),
            final(self).printables() == attach(old(self).printables(), e, b.printable),
            final(self).players() == (if b.player { old(self).players().insert(e) } else { old(self).players() }),
            final(self).grid_resource() == old(self).grid_resource(),
    {
        let e = self.entities.create();
        proof {
            self.entities.lemma_alive();
            assert(self.entities.alive().contains(e));
        }
        match b.position {
            Some(p) => {
                self.positions.insert(e, p);
                assert(crate::storage::evict(old(self).positions@, e.index) =~= old(self).positions@);
            },
            None => {},
        }
        match b.printable {
            Some(c) => {
                self.printables.insert(e, c);
                assert(crate::storage::evict(old(self).printables@, e.index) =~= old(self).printables@);
            },
            None => {},
        }
        if b.player {
            self.players.insert(e);
            assert(Set::new(|k: Entity| old(self).players@.contains(k) && k.index != e.index) =~= old(self).players@);
        }
        assert(self.positions@ =~= attach(old(self).positions(), e, b.position));
        assert(self.printables@ =~= attach(old(self).printables(), e, b.printable));
        e
    }

    /// Deletes `e` with all its components; its slot is recycled under a new
    /// generation. Returns whether `e` was alive.
    pub fn delete_entity(&mut self, e: Entity) -> (r: bool)
        requires
            old(self).wf(),
        ensures
            final(self).wf(),
            r == old(self).alive().contains(e),
            final(self).issued() == old(self).issued(),
            final(self).entity_slots() == old(self).entity_slots(),
            final(self).alive() == old(self).alive().remove(e),
            final(self).positions() == old(self).positions().remove(e),
            final(self).printables() == old(self).printables().remove(e),
            final(self).players() == old(self).players().remove(e),
            final(self).grid_resource() == old(self).grid_resource(),
    {
        self.positions.remove(e);
        self.printables.remove(e);
        self.players.remove(e);
        self.entities.delete(e)
    }

    /// Whether another entity can be built: the slot count has not reached
    /// the largest `usize`.
    pub fn can_build_entity(&self) -> (r: bool)
        requires
            self.wf(),
        ensures
            r == (self.entity_slots() < usize::MAX),
    {
        self.entities.slots() < usize::MAX
    }

    /// Whether `e` names a live entity.
    pub fn is_alive(&self, e: Entity) -> (r: bool)
        requires
            self.wf(),
        ensures
            r == self.alive().contains(e),
    {
        self.entities.is_alive(e)
    }

    /// Gives the live entity `e` the position `p`, replacing any it had.
    /// Returns false, changing nothing, when `e` is not alive.
    pub fn insert_position(&mut self, e: Entity, p: Position) -> (r: bool)
        requires
            old(self).wf(),
        ensures
            final(self).wf(),
            r == old(self).alive().contains(e),
            final(self).positions() == (if r { old(self).positions().insert(e, p) } else { old(self).positions() }),
            final(self).printables() == old(self).printables(),
            final(self).players() == old(self).players(),
            final(self).alive() == old(self).alive(),
            final(self).issued() == old(self).issued(),
            final(self).entity_slots() == old(self).entity_slots(),
            final(self).grid_resource() == old(self).grid_resource(),
    {
        if !self.entities.is_alive(e) {
            return false;
        }
        proof {
            self.entities.lemma_alive();
        }
        self.positions.insert(e, p);
        assert(crate::storage::evict(old(self).positions@, e.index) =~= old(self).positions@.remove(e));
        assert(self.positions@ =~= old(self).positions@.insert(e, p));
        true
    }

    /// Gives the live entity `e` the glyph `c`, replacing any it had.
    /// Returns false, changing nothing, when `e` is not alive.
    pub fn insert_printable(&mut self, e: Entity, c: Printable) -> (r: bool)
        requires
            old(self).wf(),
        ensures
            final(self).wf(),
            r == old(self).alive().contains(e),
            final(self).printables() == (if r { old(self).printables().insert(e, c) } else { old(self).printables() }),
            final(self).positions() == old(self).positions(),
            final(self).players() == old(self).players(),
            final(self).alive() == old(self).alive(),
            final(self).issued() == old(self).issued(),
            final(self).entity_slots() == old(self).entity_slots(),
            final(self).grid_resource() == old(self).grid_resource(),
    {
        if !self.entities.is_alive(e) {
            return false;
        }
        proof {
            self.entities.lemma_alive();
        }
        self.printables.insert(e, c);
        assert(crate::storage::evict(old(self).printables@, e.index) =~= old(self).printables@.remove(e));
        assert(self.printables@ =~= old(self).printables@.insert(e, c));
        true
    }

    /// Marks the live entity `e` as a player.
    /// Returns false, changing nothing, when `e` is not alive.
    pub fn insert_player(&mut self, e: Entity) -> (r: bool)
        requires
            old(self).wf(),
        ensures
            final(self).wf(),
            r == old(self).alive().contains(e),
            final(self).players() == (if r { old(self).players().insert(e) } else { old(self).players() }),
            final(self).positions() == old(self).positions(),
            final(self).printables() == old(self).printables(),
            final(self).alive() == old(self).alive(),
            final(self).issued() == old(self).issued(),
            final(self).entity_slots() == old(self).entity_slots(),
            final(self).grid_resource() == old(self).grid_resource(),
    {
        if !self.entities.is_alive(e) {
            return false;
        }
        proof {
            self.entities.lemma_alive();
        }
        self.players.insert(e);
        assert(self.players@ =~= old(self).players@.insert(e));
        true
    }

    /// The position of `e`, or `None` when it has none.
    pub fn position(&self, e: Entity) -> (r: Option<Position>)
        ensures
            r == (if self.positions().contains_key(e) { Some(self.positions()[e]) } else { None }),
    {
        match self.positions.get(e) {
            Some(p) => Some(*p),
            None => None,
        }
    }

    /// The glyph of `e`, or `None` when it has none.
    pub fn printable(&self, e: Entity) -> (r: Option<Printable>)
        ensures
            r == (if self.printables().contains_key(e) { Some(self.printables()[e]) } else { None }),
    {
        match self.printables.get(e) {
            Some(c) => Some(*c),
            None => None,
        }
    }

    /// Whether `e` is marked as a player.
    pub fn is_player(&self, e: Entity) -> (r: bool)
        ensures
            r == self.players().contains(e),
    {
        self.players.contains(e)
    }

    /// Detaches the position of `e` and returns it; a no-op returning `None`
    /// when it has none.
    pub fn remove_position(&mut self, e: Entity) -> (r: Option<Position>)
        requires
            old(self).wf(),
        ensures
            final(self).wf(),
            r == (if old(self).positions().contains_key(e) { Some(old(self).positions()[e]) } else { None }),
            final(self).positions() == old(self).positions().remove(e),
            final(self).printables() == old(self).printables(),
            final(self).players() == old(self).players(),
            final(self).alive() == old(self).alive(),
            final(self).issued() == old(self).issued(),
            final(self).entity_slots() == old(self).entity_slots(),
            final(self).grid_resource() == old(self).grid_resource(),
    {
        self.positions.remove(e)
    }

    /// Detaches the glyph of `e` and returns it; a no-op returning `None`
    /// when it has none.
    pub fn remove_printable(&mut self, e: Entity) -> (r: Option<Printable>)
        requires
            old(self).wf(),
        ensures
            final(self).wf(),
            r == (if old(self).printables().contains_key(e) { Some(old(self).printables()[e]) } else { None }),
            final(self).printables() == old(self).printables().remove(e),
            final(self).positions() == old(self).positions(),
            final(self).players() == old(self).players(),
            final(self).alive() == old(self).alive(),
            final(self).issued() == old(self).issued(),
            final(self).entity_slots() == old(self).entity_slots(),
            final(self).grid_resource() == old(self).grid_resource(),
    {
        self.printables.remove(e)
    }

    /// Unmarks `e` as a player and says whether it was one.
    pub fn remove_player(&mut self, e: Entity) -> (r: bool)
        requires
            old(self).wf(),
        ensures
            final(self).wf(),
            r == old(self).players().contains(e),
            final(self).players() == old(self).players().remove(e),
            final(self).positions() == old(self).positions(),
            final(self).printables() == old(self).printables(),
            final(self).alive() == old(self).alive(),
            final(self).issued() == old(self).issued(),
            final(self).entity_slots() == old(self).entity_slots(),
            final(self).grid_resource() == old(self).grid_resource(),
    {
        self.players.remove(e)
    }

    /// Registers `g` as the tile grid resource, replacing any earlier one.
    pub fn insert_grid(&mut self, g: TileGrid)
        requires
            old(self).wf(),
            g.wf(),
        ensures
            final(self).wf(),
            final(self).grid_resource() == Some(g),
            final(self).positions() == old(self).positions(),
            final(self).printables() == old(self).printables(),
            final(self).players() == old(self).players(),
            final(self).alive() == old(self).alive(),
            final(self).issued() == old(self).issued(),
            final(self).entity_slots() == old(self).entity_slots(),
    {
        self.grid = Some(g);
    }

    /// A registered grid is well formed.
    pub proof fn lemma_grid_wf(&self)
        requires
            self.wf(),
        ensures
            self.grid_resource() matches Some(g) ==> g.wf(),
    {
    }

    /// Whether a tile grid resource is registered.
    pub fn has_grid(&self) -> (r: bool)
        ensures
            r == self.grid_resource() is Some,
    {
        self.grid.is_some()
    }

    /// Shared access to the tile grid resource, or `None` when none is registered.
    pub fn grid(&self) -> (r: Option<&TileGrid>)
        ensures
            self.wf() ==> (r matches Some(g) ==> g.wf()),
            r == (match self.grid_resource() {
                Some(g) => Some(&g),
                None => None,
            }),
    {
        match &self.grid {
            Some(g) => Some(g),
            None => None,
        }
    }

    /// Places `furn` at `(x, y)` of the registered grid.
    pub fn put_tile(&mut self, furn: Furniture, x: usize, y: usize)
        requires
            old(self).wf(),
            old(self).grid_resource() matches Some(g) && x < g.width() && y < g.height(),
        ensures
            final(self).wf(),
            final(self).grid_resource() matches Some(g) && {
                let o = old(self).grid_resource()->0;
                &&& g.width() == o.width()
                &&& g.height() == o.height()
                &&& g.tile(x as int, y as int) == furn
                &&& forall|i: int, j: int|
                    0 <= i < o.width() && 0 <= j < o.height() && (i != x || j != y)
                        ==> #[trigger] g.tile(i, j) == o.tile(i, j)
            },
            final(self).positions() == old(self).positions(),
            final(self).printables() == old(self).printables(),
            final(self).players() == old(self).players(),
            final(self).alive() == old(self).alive(),
            final(self).issued() == old(self).issued(),
            final(self).entity_slots() == old(self).entity_slots(),
    {
        match &mut self.grid {
            Some(g) => g.put(furn, x, y),
            None => {},
        }
    }

    /// The entities that have both a position and a glyph, by slot order.
    pub fn drawn_entities(&self) -> (r: Vec<Entity>)
        ensures
            r@ == self.drawn(),
    {
        crate::storage::join(&self.positions, &self.printables)
    }

    /// `drawn` holds exactly the entities with both a position and a glyph, each once.
    pub proof fn lemma_drawn(&self)
        ensures
            forall|e: Entity|
                #[trigger] self.drawn().contains(e) <==> (self.positions().contains_key(e)
                    && self.printables().contains_key(e)),
            self.drawn().no_duplicates(),
    {
        crate::storage::lemma_join_exact(&self.positions, &self.printables);
    }
}

/// A stale handle resolves to no component: it has no position, no glyph and
/// no player mark.
pub proof fn lemma_stale_unresolved(w: &World, e: Entity)
    requires
        w.wf(),
        w.is_stale(e),
    ensures
        !w.positions().contains_key(e),
        !w.printables().contains_key(e),
        !w.players().contains(e),
{
}

/// Deleting `e` and then building another entity, which may reuse the slot
/// of `e`: the new entity differs from `e`, and `e` stays stale and resolves
/// to no component.
pub proof fn lemma_deleted_handle_stays_absent(
    before: &World,
    deleted: &World,
    after: &World,
    e: Entity,
    n: Entity,
)
    requires
        before.wf(),
        before.alive().contains(e),
        deleted.wf(),
        deleted.issued() == before.issued(),
        deleted.alive() == before.alive().remove(e),
        after.wf(),
        !deleted.issued().contains(n),
        after.issued() == deleted.issued().insert(n),
        after.alive() == deleted.alive().insert(n),
    ensures
        n != e,
        after.is_stale(e),
        !after.positions().contains_key(e),
        !after.printables().contains_key(e),
        !after.players().contains(e),
{
    before.entities.lemma_alive();
    lemma_stale_unresolved(after, e);
}

} // verus!
