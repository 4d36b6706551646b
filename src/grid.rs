//! Tiles and the tile grid resource.
use vstd::prelude::*;

verus! {

/// A static piece of furniture occupying one grid cell.
#[derive(Clone, Copy, Debug, PartialEq, Eq, Structural)]
#[non_exhaustive]
pub enum Furniture {
    Empty,
    Table,
    Chair,
}

/// The glyph each tile is drawn with.
pub open spec fn glyph_of(f: Furniture) -> char {
    match f {
        Furniture::Empty => '\u{b7}',
        Furniture::Table => 'T',
        Furniture::Chair => 'L',
    }
}

impl Furniture {
    /// The glyph this tile is drawn with.
    pub fn to_char(&self) -> (r: char)
        ensures
            r == glyph_of(*self),
    {
        match self {
            Furniture::Empty => '\u{b7}',
            Furniture::Table => 'T',
            Furniture::Chair => 'L',
        }
    }
}

/// A `width` by `height` grid of tiles, indexed `[x][y]`.
pub struct TileGrid {
    grid: Vec<Vec<Furniture>>,
    width: usize,
    height: usize,
}

impl TileGrid {
    pub closed spec fn width(&self) -> nat {
        self.width as nat
    }

    pub closed spec fn height(&self) -> nat {
        self.height as nat
    }

    /// The tile at `(x, y)`.
    pub closed spec fn tile(&self, x: int, y: int) -> Furniture {
        self.grid@[x]@[y]
    }

    /// The grid has `width` columns of `height` tiles, and its cell count fits
    /// in a `usize`.
    pub closed spec fn wf(&self) -> bool {
        &&& self.grid@.len() == self.width
        &&& forall|x: int| 0 <= x < self.width ==> (#[trigger] self.grid@[x])@.len() == self.height
        &&& self.width * self.height <= usize::MAX
    }

    /// A grid of the given size with every cell `Empty`.
    pub fn new(width: usize, height: usize) -> (r: TileGrid)
        requires
            width * height <= usize::MAX,
        ensures
            r.wf(),
            r.width() == width,
            r.height() == height,
            forall|x: int, y: int|
                0 <= x < width && 0 <= y < height ==> #[trigger] r.tile(x, y) == Furniture::Empty,
    {
        let mut grid: Vec<Vec<Furniture>> = Vec::new();
        let mut i: usize = 0;
        while i < width
            invariant
                i <= width,
                grid@.len() == i,
                forall|x: int| 0 <= x < i ==> (#[trigger] grid@[x])@.len() == height,
                forall|x: int, y: int|
                    0 <= x < i && 0 <= y < height ==> #[trigger] grid@[x]@[y] == Furniture::Empty,
            decreases width - i,
        {
            let mut column: Vec<Furniture> = Vec::new();
            let mut j: usize = 0;
            while j < height
                invariant
                    j <= height,
                    column@.len() == j,
                    forall|y: int| 0 <= y < j ==> #[trigger] column@[y] == Furniture::Empty,
                decreases height - j,
            {
                column.push(Furniture::Empty);
                j = j + 1;
            }
            grid.push(column);
            i = i + 1;
        }
        TileGrid { grid, width, height }
    }

    /// The grid's `(width, height)`.
    pub fn dim(&self) -> (r: (usize, usize))
        ensures
            r.0 == self.width(),
            r.1 == self.height(),
    {
        (self.width, self.height)
    }

    /// The tile at `(x, y)`.
    pub fn get(&self, x: usize, y: usize) -> (r: Furniture)
        requires
            self.wf(),
            x < self.width(),
            y < self.height(),
        ensures
            r == self.tile(x as int, y as int),
    {
        self.grid[x][y]
    }

    /// Places `furn` at `(x, y)`, leaving every other cell as it was.
    pub fn put(&mut self, furn: Furniture, x: usize, y: usize)
        requires
            old(self).wf(),
            x < old(self).width(),
            y < old(self).height(),
        ensures
            final(self).wf(),
            final(self).width() == old(self).width(),
            final(self).height() == old(self).height(),
            final(self).tile(x as int, y as int) == furn,
            forall|i: int, j: int|
                0 <= i < old(self).width() && 0 <= j < old(self).height() && (i != x || j != y)
                    ==> #[trigger] final(self).tile(i, j) == old(self).tile(i, j),
    {
        self.grid[x].set(y, furn);
    }
}

impl Default for TileGrid {
    /// An empty grid of no cells.
    fn default() -> (r: TileGrid)
        ensures
            r.wf(),
            r.width() == 0,
            r.height() == 0,
    {
        TileGrid::new(0, 0)
    }
}

} // verus!
