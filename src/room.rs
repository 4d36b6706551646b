//! A room: a world with a tile grid of a fixed size.
use vstd::prelude::*;
use crate::grid::{Furniture, TileGrid};
use crate::system::Dispatcher;
use crate::world::World;

verus! {

pub struct Room {
    pub world: World,
}

/// `g` is a `width` by `height` grid with every cell `Empty`.
pub open spec fn empty_grid(g: TileGrid, width: nat, height: nat) -> bool {
    &&& g.wf()
    &&& g.width() == width
    &&& g.height() == height
    &&& forall|x: int, y: int| 0 <= x < width && 0 <= y < height ==> #[trigger] g.tile(x, y) == Furniture::Empty
}

impl Room {
    /// A room with no entities and a `width` by `height` grid of `Empty`
    /// tiles, set up for the dispatcher's systems.
    pub fn new(width: usize, height: usize, dispatcher: &Dispatcher) -> (r: Room)
        requires
            width * height <= usize::MAX,
        ensures
            r.world.wf(),
            r.world.alive() == Set::<crate::entity::Entity>::empty(),
            r.world.issued() == Set::<crate::entity::Entity>::empty(),
            r.world.entity_slots() == 0,
            r.world.positions() == Map::<crate::entity::Entity, crate::components::Position>::empty(),
            r.world.printables() == Map::<crate::entity::Entity, crate::components::Printable>::empty(),
            r.world.players() == Set::<crate::entity::Entity>::empty(),
            r.world.grid_resource() matches Some(g) && empty_grid(g, width as nat, height as nat),
    {
        let mut world = World::new();
        dispatcher.setup(&mut world);
        world.insert_grid(TileGrid::new(width, height));
        Room { world }
    }

    /// The grid's `(width, height)`, or `None` when the world holds no grid.
    pub fn dim(&self) -> (r: Option<(usize, usize)>)
        ensures
            r == (match self.world.grid_resource() {
                Some(g) => Some((g.width() as usize, g.height() as usize)),
                None => None,
            }),
    {
        match self.world.grid() {
            Some(g) => Some(g.dim()),
            None => None,
        }
    }

    /// Places `furn` at `(x, y)`; every other cell keeps its tile.
    pub fn put(&mut self, furn: Furniture, x: usize, y: usize)
        requires
            old(self).world.wf(),
            old(self).world.grid_resource() matches Some(g) && x < g.width() && y < g.height(),
        ensures
            final(self).world.wf(),
            final(self).world.grid_resource() matches Some(g) && {
                let o = old(self).world.grid_resource()->0;
                &&& g.wf()
                &&& g.width() == o.width()
                &&& g.height() == o.height()
                &&& g.tile(x as int, y as int) == furn
                &&& forall|i: int, j: int|
                    0 <= i < o.width() && 0 <= j < o.height() && (i != x || j != y)
                        ==> #[trigger] g.tile(i, j) == o.tile(i, j)
            },
            final(self).world.positions() == old(self).world.positions(),
            final(self).world.printables() == old(self).world.printables(),
            final(self).world.players() == old(self).world.players(),
            final(self).world.alive() == old(self).world.alive(),
            final(self).world.issued() == old(self).world.issued(),
            final(self).world.entity_slots() == old(self).world.entity_slots(),
    {
        self.world.put_tile(furn, x, y);
        proof {
            self.world.lemma_grid_wf();
        }
    }
}

/// Putting a tile into a fresh room: reading the grid at that cell gives the
/// tile back, and every other cell is still `Empty`.
pub proof fn lemma_put_round_trip(
    fresh: &Room,
    after: &Room,
    width: nat,
    height: nat,
    furn: Furniture,
    x: int,
    y: int,
)
    requires
        0 <= x < width,
        0 <= y < height,
        fresh.world.grid_resource() matches Some(g) && empty_grid(g, width, height),
        after.world.grid_resource() matches Some(g) && {
            let o = fresh.world.grid_resource()->0;
            &&& g.width() == o.width()
            &&& g.height() == o.height()
            &&& g.tile(x, y) == furn
            &&& forall|i: int, j: int|
                0 <= i < o.width() && 0 <= j < o.height() && (i != x || j != y)
                    ==> #[trigger] g.tile(i, j) == o.tile(i, j)
        },
    ensures
        after.world.grid_resource() matches Some(g) && {
            &&& g.tile(x, y) == furn
            &&& forall|i: int, j: int|
                0 <= i < width && 0 <= j < height && (i != x || j != y)
                    ==> #[trigger] g.tile(i, j) == Furniture::Empty
        },
{
    let o = fresh.world.grid_resource()->0;
    let g = after.world.grid_resource()->0;
    assert forall|i: int, j: int|
        0 <= i < width && 0 <= j < height && (i != x || j != y) implies #[trigger] g.tile(i, j)
        == Furniture::Empty by {
        assert(g.tile(i, j) == o.tile(i, j));
    }
}

} // verus!
