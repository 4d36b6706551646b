//! Systems, the dispatcher that runs them in order, and the print system's
//! frame.
use vstd::prelude::*;
use crate::components::cell_of;
use crate::grid::{TileGrid, glyph_of};
use crate::world::World;

verus! {

/// A rendered frame: `height` rows of `width` glyphs each.
pub struct Frame {
    rows: Vec<Vec<char>>,
}

/// A glyph to draw at a cell: `(x, y, glyph)`.
pub type Mark = (int, int, char);

/// The grid's tiles as glyphs, row by row.
pub open spec fn terrain(g: TileGrid) -> Seq<Seq<char>> {
    Seq::new(g.height(), |y: int| Seq::new(g.width(), |x: int| glyph_of(g.tile(x, y))))
}

/// Draws `marks` over `rows` in order, so a later mark on the same cell wins;
/// a mark outside the `w` by `h` area is skipped.
pub open spec fn paint(rows: Seq<Seq<char>>, w: nat, h: nat, marks: Seq<Mark>) -> Seq<Seq<char>>
    decreases marks.len(),
{
    if marks.len() == 0 {
        rows
    } else {
        let before = paint(rows, w, h, marks.drop_last());
        let (x, y, c) = marks.last();
        if 0 <= x < w && 0 <= y < h {
            before.update(y, before[y].update(x, c))
        } else {
            before
        }
    }
}

/// The marks of the entities that have a position and a glyph, in join order:
/// each at the floor of its coordinates.
pub open spec fn marks_of(w: &World) -> Seq<Mark> {
    w.drawn().map_values(
        |e| (cell_of(w.positions()[e].x), cell_of(w.positions()[e].y), w.printables()[e].glyph),
    )
}

/// What the print system draws for `w`: the grid's glyphs with the entities
/// drawn over them; no rows when no grid is registered.
pub open spec fn frame_of(w: &World) -> Seq<Seq<char>> {
    match w.grid_resource() {
        Some(g) => paint(terrain(g), g.width(), g.height(), marks_of(w)),
        None => Seq::empty(),
    }
}

impl Frame {
    /// The glyphs, row by row from `y = 0`.
    pub closed spec fn view(&self) -> Seq<Seq<char>> {
        self.rows@.map_values(|r: Vec<char>| r@)
    }

    /// The frame's rows, from `y = 0`, each with its glyphs from `x = 0`.
    pub fn rows(&self) -> (r: &Vec<Vec<char>>)
        ensures
            r@.map_values(|r: Vec<char>| r@) == self@,
    {
        &self.rows
    }
}

proof fn lemma_paint_shape(rows: Seq<Seq<char>>, w: nat, h: nat, marks: Seq<Mark>)
    requires
        rows.len() == h,
        forall|y: int| 0 <= y < h ==> (#[trigger] rows[y]).len() == w,
    ensures
        paint(rows, w, h, marks).len() == h,
        forall|y: int| 0 <= y < h ==> (#[trigger] paint(rows, w, h, marks)[y]).len() == w,
    decreases marks.len(),
{
    if marks.len() > 0 {
        lemma_paint_shape(rows, w, h, marks.drop_last());
    }
}

/// Composes the frame for `w`: each cell starts as its tile's glyph, then
/// every entity with a position and a glyph is drawn at the floor of its
/// coordinates when that cell lies inside the grid. Without a grid the frame
/// has no rows.
pub fn render(w: &World) -> (r: Frame)
    requires
        w.wf(),
    ensures
        r@ == frame_of(w),
{
    let g = match w.grid() {
        Some(g) => g,
        None => {
            let r = Frame { rows: Vec::new() };
            assert(r@ =~= frame_of(w));
            return r;
        },
    };
    assert(w.grid_resource() == Some(*g));
    let (width, height) = g.dim();
    let mut rows: Vec<Vec<char>> = Vec::new();
    let mut y: usize = 0;
    while y < height
        invariant
            g.wf(),
            width == g.width(),
            height == g.height(),
            y <= height,
            rows@.len() == y,
            forall|j: int| 0 <= j < y ==> (#[trigger] rows@[j])@ == terrain(*g)[j],
        decreases height - y,
    {
        let mut row: Vec<char> = Vec::new();
        let mut x: usize = 0;
        while x < width
            invariant
                g.wf(),
                width == g.width(),
                height == g.height(),
                y < height,
                x <= width,
                row@.len() == x,
                forall|i: int| 0 <= i < x ==> #[trigger] row@[i] == glyph_of(g.tile(i, y as int)),
            decreases width - x,
        {
            let t = g.get(x, y);
            row.push(t.to_char());
            x = x + 1;
        }
        assert(row@ =~= terrain(*g)[y as int]);
        rows.push(row);
        y = y + 1;
    }
    let ents = w.drawn_entities();
    proof {
        w.lemma_drawn();
    }
    let ghost marks = marks_of(w);
    let ghost base = terrain(*g);
    assert(rows@.map_values(|r: Vec<char>| r@) =~= paint(base, g.width(), g.height(), marks.take(0)));
    assert forall|j: int| 0 <= j < height implies (#[trigger] rows@[j])@.len() == width by {
        assert(rows@[j]@ == base[j]);
    }
    let mut k: usize = 0;
    while k < ents.len()
        invariant
            w.wf(),
            width == g.width(),
            height == g.height(),
            ents@ == w.drawn(),
            marks == marks_of(w),
            base == terrain(*g),
            k <= ents@.len(),
            forall|e| #[trigger] w.drawn().contains(e) <==> (w.positions().contains_key(e)
                && w.printables().contains_key(e)),
            rows@.map_values(|r: Vec<char>| r@) == paint(base, g.width(), g.height(), marks.take(k as int)),
            rows@.len() == height,
            forall|j: int| 0 <= j < height ==> (#[trigger] rows@[j])@.len() == width,
        decreases ents@.len() - k,
    {
        let e = ents[k];
        assert(w.drawn().contains(e));
        let p = w.position(e).unwrap();
        let c = w.printable(e).unwrap();
        let (cx, cy) = p.cell();
        proof {
            lemma_paint_shape(base, g.width(), g.height(), marks.take(k as int));
            assert(marks.take(k + 1).drop_last() =~= marks.take(k as int));
            assert(marks.take(k + 1).last() == (cx as int, cy as int, c.glyph));
        }
        if 0 <= cx && 0 <= cy && (cx as u64 as u128) < (width as u128) && (cy as u64 as u128) < (
        height as u128) {
            let xi = cx as u64 as usize;
            let yi = cy as u64 as usize;
            let ghost before = rows@.map_values(|r: Vec<char>| r@);
            rows[yi].set(xi, c.glyph);
            assert(rows@.map_values(|r: Vec<char>| r@) =~= before.update(
                cy as int,
                before[cy as int].update(cx as int, c.glyph),
            ));
        }
        k = k + 1;
    }
    assert(marks.take(ents@.len() as int) =~= marks);
    let r = Frame { rows };
    r
}

/// The systems a dispatcher can run.
#[derive(Clone, Copy, Debug, PartialEq, Eq, Structural)]
pub enum System {
    /// Reads the tile grid, positions and glyphs, and draws one frame.
    Print,
}

/// Whether any of `systems` reads the tile grid.
pub open spec fn needs_grid(systems: Seq<System>) -> bool {
    exists|i: int| 0 <= i < systems.len() && systems[i] == System::Print
}

/// Runs its systems once each, in the order they were added.
pub struct Dispatcher {
    systems: Vec<System>,
}

impl Dispatcher {
    pub closed spec fn systems(&self) -> Seq<System> {
        self.systems@
    }

    /// A dispatcher with no systems.
    pub fn new() -> (r: Dispatcher)
        ensures
            r.systems() == Seq::<System>::empty(),
    {
        Dispatcher { systems: Vec::new() }
    }

    /// This dispatcher with `s` added after its other systems.
    pub fn with(self, s: System) -> (r: Dispatcher)
        ensures
            r.systems() == self.systems().push(s),
    {
        let mut systems = self.systems;
        systems.push(s);
        Dispatcher { systems }
    }

    /// Registers in `w` what the systems read: a system that draws gets an
    /// empty default grid when none is registered yet. An existing grid is kept.
    pub fn setup(&self, w: &mut World)
        requires
            old(w).wf(),
        ensures
            final(w).wf(),
            old(w).grid_resource() is Some || !needs_grid(self.systems()) ==> final(w).grid_resource()
                == old(w).grid_resource(),
            old(w).grid_resource() is None && needs_grid(self.systems())
                ==> (final(w).grid_resource() matches Some(g) && g.width() == 0 && g.height() == 0),
            final(w).positions() == old(w).positions(),
            final(w).printables() == old(w).printables(),
            final(w).players() == old(w).players(),
            final(w).alive() == old(w).alive(),
            final(w).issued() == old(w).issued(),
            final(w).entity_slots() == old(w).entity_slots(),
    {
        let mut i: usize = 0;
        let mut need = false;
        while i < self.systems.len()
            invariant
                i <= self.systems@.len(),
                need == exists|j: int| 0 <= j < i && self.systems@[j] == System::Print,
            decreases self.systems@.len() - i,
        {
            match self.systems[i] {
                System::Print => {
                    need = true;
                },
            }
            i = i + 1;
        }
        if need && !w.has_grid() {
            w.insert_grid(TileGrid::default());
        }
    }

    /// Runs every system once, in order, and returns the frames the print
    /// systems drew, one per print system.
    pub fn dispatch(&self, w: &World) -> (r: Vec<Frame>)
        requires
            w.wf(),
        ensures
            r@.len() == self.systems().len(),
            forall|i: int| 0 <= i < r@.len() ==> (#[trigger] r@[i])@ == frame_of(w),
    {
        let mut r: Vec<Frame> = Vec::new();
        let mut i: usize = 0;
        while i < self.systems.len()
            invariant
                w.wf(),
                i <= self.systems@.len(),
                r@.len() == i,
                forall|j: int| 0 <= j < r@.len() ==> (#[trigger] r@[j])@ == frame_of(w),
            decreases self.systems@.len() - i,
        {
            match self.systems[i] {
                System::Print => {
                    r.push(render(w));
                },
            }
            i = i + 1;
        }
        r
    }
}

} // verus!
