//! The components entities carry.
use vstd::prelude::*;

verus! {

/// Sub-cell steps per grid cell in a `Position` coordinate.
pub const SUBCELLS: i64 = 1000;

/// The floor of `v / SUBCELLS`: the grid line at or below a coordinate.
pub open spec fn cell_of(v: i64) -> int {
    v as int / SUBCELLS as int
}

/// A point in continuous grid space, each coordinate in thousandths of a cell.
#[derive(Clone, Copy, Debug, PartialEq, Eq, Structural)]
pub struct Position {
    pub x: i64,
    pub y: i64,
}

/// The cell holding coordinate `v`, rounding toward negative infinity.
pub fn floor_cell(v: i64) -> (r: i64)
    ensures
        r == cell_of(v),
{
    if v >= 0 {
        v / SUBCELLS
    } else {
        let n: i64 = -(v + 1);
        let q: i64 = n / SUBCELLS;
        proof {
            assert(v as int / 1000 == -(q as int) - 1) by (nonlinear_arith)
                requires
                    n == -(v + 1),
                    n >= 0,
                    q == n / 1000,
            {
            }
        }
        -q - 1
    }
}

impl Position {
    pub fn new(x: i64, y: i64) -> (r: Position)
        ensures
            r == (Position { x, y }),
    {
        Position { x, y }
    }

    /// The grid cell the position lies in: the floor of each coordinate.
    pub fn cell(&self) -> (r: (i64, i64))
        ensures
            r.0 == cell_of(self.x),
            r.1 == cell_of(self.y),
    {
        (floor_cell(self.x), floor_cell(self.y))
    }
}

/// The glyph an entity is drawn with.
#[derive(Clone, Copy, Debug, PartialEq, Eq, Structural)]
pub struct Printable {
    pub glyph: char,
}

impl Printable {
    pub fn new(glyph: char) -> (r: Printable)
        ensures
            r.glyph == glyph,
    {
        Printable { glyph }
    }
}

} // verus!
