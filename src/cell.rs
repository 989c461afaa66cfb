use vstd::prelude::*;

verus! {

/// The glyph drawn for a live cell.
pub const LIVE_CELL: &'static str = "◼";

/// The glyph drawn for a dead cell.
pub const DEAD_CELL: &'static str = "◻";

/// The state of one cell of the grid.
#[derive(Clone, Copy, Debug, PartialEq, Eq, Structural)]
pub enum Cell {
    Alive,
    Dead,
}

/// What a cell contributes to a neighbour count: one when alive, zero when dead.
pub open spec fn cell_value(c: Cell) -> nat {
    match c {
        Cell::Alive => 1,
        Cell::Dead => 0,
    }
}

/// The character that stands for a cell in a rendered frame.
pub open spec fn glyph(c: Cell) -> char {
    match c {
        Cell::Alive => '◼',
        Cell::Dead => '◻',
    }
}

impl Cell {
    /// The cell's glyph, as a one-character string.
    pub fn render(&self) -> (r: &'static str)
        ensures
            r@ == seq![glyph(*self)],
    {
        proof {
            reveal_strlit("◼");
            reveal_strlit("◻");
        }
        match self {
            Cell::Alive => LIVE_CELL,
            Cell::Dead => DEAD_CELL,
        }
    }

    /// One for a live cell, zero for a dead one.
    pub fn value(&self) -> (r: u8)
        ensures
            r as nat == cell_value(*self),
    {
        match self {
            Cell::Alive => 1,
            Cell::Dead => 0,
        }
    }
}

} // verus!
