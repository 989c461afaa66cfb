use vstd::prelude::*;
use vstd::arithmetic::div_mod::{lemma_fundamental_div_mod_converse, lemma_mod_bound};
use vstd::string::StringExecFns;
use crate::batch::{Batch, batch_start};
use crate::cell::{Cell, cell_value, glyph};

verus! {

/// The abstract state of a universe: its frame rate, its dimensions and its
/// cells in row-major order.
pub struct GridModel {
    pub framerate: int,
    pub width: nat,
    pub height: nat,
    pub cells: Seq<Cell>,
}

/// A grid has positive dimensions and exactly one cell per position.
pub open spec fn grid_wf(width: nat, height: nat, cells: Seq<Cell>) -> bool {
    &&& width > 0
    &&& height > 0
    &&& cells.len() == width * height
}

/// The cell at a position, where the row is taken modulo the height and the
/// column modulo the width: the grid's opposite edges are adjacent.
#[verifier::opaque]
pub open spec fn wrapped_cell(cells: Seq<Cell>, width: nat, height: nat, row: int, column: int) -> Cell {
    cells[(row % (height as int)) * (width as int) + column % (width as int)]
}

/// The number of live cells among the eight positions around `(row, column)`,
/// each wrapped toroidally. Where a dimension is 1 or 2 the wrapped positions
/// coincide, and a cell may count itself or one neighbour more than once.
pub open spec fn neighbor_count(cells: Seq<Cell>, width: nat, height: nat, row: int, column: int) -> nat {
    cell_value(wrapped_cell(cells, width, height, row - 1, column - 1))
        + cell_value(wrapped_cell(cells, width, height, row - 1, column))
        + cell_value(wrapped_cell(cells, width, height, row - 1, column + 1))
        + cell_value(wrapped_cell(cells, width, height, row, column - 1))
        + cell_value(wrapped_cell(cells, width, height, row, column + 1))
        + cell_value(wrapped_cell(cells, width, height, row + 1, column - 1))
        + cell_value(wrapped_cell(cells, width, height, row + 1, column))
        + cell_value(wrapped_cell(cells, width, height, row + 1, column + 1))
}

/// The rule of life: a live cell with two or three live neighbours survives,
/// a dead cell with exactly three comes alive, every other cell is dead.
pub open spec fn next_cell(c: Cell, live_neighbors: nat) -> Cell {
    match c {
        Cell::Alive => if 2 <= live_neighbors && live_neighbors <= 3 {
            Cell::Alive
        } else {
            Cell::Dead
        },
        Cell::Dead => if live_neighbors == 3 {
            Cell::Alive
        } else {
            Cell::Dead
        },
    }
}

/// The generation that follows `cells`: each cell's next state computed from
/// the current generation alone.
pub open spec fn next_generation(cells: Seq<Cell>, width: nat, height: nat) -> Seq<Cell> {
    Seq::new(
        cells.len(),
        |i: int|
            next_cell(
                cells[i],
                neighbor_count(cells, width, height, i / (width as int), i % (width as int)),
            ),
    )
}

/// A position of a dimension of length `n`, stepped back or forth by one,
/// wraps around at either end.
proof fn lemma_wrap_step(pos: int, n: int)
    requires
        0 <= pos < n,
    ensures
        (pos - 1) % n == (if pos == 0 { n - 1 } else { pos - 1 }),
        (pos + 1) % n == (if pos + 1 == n { 0 } else { pos + 1 }),
        pos % n == pos,
{
    if pos == 0 {
        lemma_fundamental_div_mod_converse(pos - 1, n, -1, n - 1);
    } else {
        lemma_fundamental_div_mod_converse(pos - 1, n, 0, pos - 1);
    }
    if pos + 1 == n {
        lemma_fundamental_div_mod_converse(pos + 1, n, 1, 0);
    } else {
        lemma_fundamental_div_mod_converse(pos + 1, n, 0, pos + 1);
    }
    lemma_fundamental_div_mod_converse(pos, n, 0, pos);
}

/// The eight wrapped neighbours of `(row, column)` are the cells at the
/// rows `up`, `row`, `down` and the columns `left`, `column`, `right`.
proof fn lemma_neighbor_positions(
    cells: Seq<Cell>,
    width: nat,
    height: nat,
    row: int,
    column: int,
    up: int,
    down: int,
    left: int,
    right: int,
)
    requires
        0 <= row < height,
        0 <= column < width,
        up == (if row == 0 { height - 1 } else { row - 1 }),
        down == (if row + 1 == height { 0 } else { row + 1 }),
        left == (if column == 0 { width - 1 } else { column - 1 }),
        right == (if column + 1 == width { 0 } else { column + 1 }),
    ensures
        wrapped_cell(cells, width, height, row - 1, column - 1) == cells[up * width + left],
        wrapped_cell(cells, width, height, row - 1, column) == cells[up * width + column],
        wrapped_cell(cells, width, height, row - 1, column + 1) == cells[up * width + right],
        wrapped_cell(cells, width, height, row, column - 1) == cells[row * width + left],
        wrapped_cell(cells, width, height, row, column + 1) == cells[row * width + right],
        wrapped_cell(cells, width, height, row + 1, column - 1) == cells[down * width + left],
        wrapped_cell(cells, width, height, row + 1, column) == cells[down * width + column],
        wrapped_cell(cells, width, height, row + 1, column + 1) == cells[down * width + right],
{
    reveal(wrapped_cell);
    lemma_wrap_step(row, height as int);
    lemma_wrap_step(column, width as int);
}

/// A row-major index lies inside the grid.
proof fn lemma_index_in_grid(row: int, column: int, width: int, height: int)
    requires
        0 <= row < height,
        0 <= column < width,
    ensures
        0 <= row * width + column < width * height,
{
    assert(0 <= row * width + column < width * height) by (nonlinear_arith)
        requires
            0 <= row < height,
            0 <= column < width,
    ;
}

/// A flat index splits into the row and the column it stands for.
proof fn lemma_index_split(i: int, width: int, height: int)
    requires
        0 <= i < width * height,
        width > 0,
    ensures
        0 <= i / width < height,
        0 <= i % width < width,
        (i / width) * width + i % width == i,
{
    vstd::arithmetic::div_mod::lemma_fundamental_div_mod(i, width);
    assert(0 <= i / width < height && (i / width) * width == width * (i / width)) by (nonlinear_arith)
        requires
            i == width * (i / width) + i % width,
            0 <= i % width < width,
            0 <= i < width * height,
            width > 0,
    ;
}

/// A row that lies inside the grid spans whole indices of it.
proof fn lemma_row_in_grid(row: int, width: int, height: int)
    requires
        0 <= row < height,
        width > 0,
    ensures
        0 <= row * width,
        row * width + width <= width * height,
{
    assert(0 <= row * width && row * width + width <= width * height) by (nonlinear_arith)
        requires
            0 <= row < height,
            width > 0,
    ;
}

/// The product of two `u32` values fits in a `u64`.
proof fn lemma_area_fits(width: u32, height: u32)
    ensures
        (width as int) * (height as int) <= u64::MAX,
{
    assert((width as int) * (height as int) <= (u32::MAX as int) * (u32::MAX as int)) by (nonlinear_arith)
        requires
            0 <= width <= u32::MAX,
            0 <= height <= u32::MAX,
    ;
}

/// Whether the cell at flat index `i` of a freshly created universe is alive.
pub open spec fn seed_cell(i: int) -> Cell {
    if i % 2 == 0 || i % 7 == 0 {
        Cell::Alive
    } else {
        Cell::Dead
    }
}

/// The cells of a freshly created universe with `n` cells.
pub open spec fn seeded_cells(n: nat) -> Seq<Cell> {
    Seq::new(n, |i: int| seed_cell(i))
}

/// The text of one row: one glyph per cell, left to right, then a newline.
pub open spec fn row_text(cells: Seq<Cell>, width: nat, row: nat) -> Seq<char> {
    cells.subrange((row * width) as int, (row * width + width) as int).map_values(|c: Cell| glyph(c)) + seq!['\n']
}

/// The text of the first `rows` rows, top to bottom.
pub open spec fn frame_text(cells: Seq<Cell>, width: nat, rows: nat) -> Seq<char>
    decreases rows,
{
    if rows == 0 {
        Seq::empty()
    } else {
        frame_text(cells, width, (rows - 1) as nat) + row_text(cells, width, (rows - 1) as nat)
    }
}

/// Why a universe could not be built.
#[derive(Clone, Copy, Debug, PartialEq, Eq, Structural)]
pub enum UniverseError {
    /// The width or the height is zero.
    EmptyDimension,
    /// The number of cells given is not the width times the height.
    CellCountMismatch,
}

/// The pause between two generations, in nanoseconds, at `framerate`
/// generations per second; none for a frame rate that is not positive.
pub open spec fn frame_interval(framerate: int) -> int {
    if framerate > 0 {
        1_000_000_000int / framerate
    } else {
        0
    }
}

/// The generation reached from `cells` after `k` updates.
pub open spec fn generation_after(cells: Seq<Cell>, width: nat, height: nat, k: nat) -> Seq<Cell>
    decreases k,
{
    if k == 0 {
        cells
    } else {
        next_generation(generation_after(cells, width, height, (k - 1) as nat), width, height)
    }
}

/// No cell is alive.
pub open spec fn all_dead(cells: Seq<Cell>) -> bool {
    forall|i: int| 0 <= i < cells.len() ==> #[trigger] cells[i] == Cell::Dead
}

/// A wrapped position always names a cell of the grid.
proof fn lemma_wrapped_in_grid(width: nat, height: nat, row: int, column: int)
    requires
        width > 0,
        height > 0,
    ensures
        0 <= (row % (height as int)) * (width as int) + column % (width as int) < width * height,
{
    lemma_mod_bound(row, height as int);
    lemma_mod_bound(column, width as int);
    lemma_index_in_grid(row % (height as int), column % (width as int), width as int, height as int);
}

/// The rule of life, cell by cell: a live cell with two or three live
/// neighbours stays alive, one with fewer than two or more than three dies,
/// a dead cell with exactly three comes alive, and any other dead cell stays
/// dead.
pub proof fn lemma_rule(cells: Seq<Cell>, width: nat, height: nat, i: int)
    requires
        grid_wf(width, height, cells),
        0 <= i < cells.len(),
    ensures
        ({
            let n = neighbor_count(cells, width, height, i / (width as int), i % (width as int));
            let next = next_generation(cells, width, height)[i];
            &&& (cells[i] == Cell::Alive && (n == 2 || n == 3)) ==> next == Cell::Alive
            &&& (cells[i] == Cell::Alive && (n < 2 || n >= 4)) ==> next == Cell::Dead
            &&& (cells[i] == Cell::Dead && n == 3) ==> next == Cell::Alive
            &&& (cells[i] == Cell::Dead && n != 3) ==> next == Cell::Dead
        }),
{
}

/// The edges wrap: the row above row 0 is the last row, the row below the
/// last row is row 0, and likewise the column left of column 0 is the last
/// column and the column right of the last column is column 0.
pub proof fn lemma_toroidal_wrap(cells: Seq<Cell>, width: nat, height: nat, row: int, column: int)
    requires
        grid_wf(width, height, cells),
        0 <= row < height,
        0 <= column < width,
    ensures
        wrapped_cell(cells, width, height, -1, column) == cells[(height - 1) * width + column],
        wrapped_cell(cells, width, height, height as int, column) == cells[column],
        wrapped_cell(cells, width, height, row, -1) == cells[row * width + (width - 1)],
        wrapped_cell(cells, width, height, row, width as int) == cells[row * width],
{
    reveal(wrapped_cell);
    lemma_wrap_step(0, height as int);
    lemma_wrap_step(height - 1, height as int);
    lemma_wrap_step(0, width as int);
    lemma_wrap_step(width - 1, width as int);
    lemma_wrap_step(row, height as int);
    lemma_wrap_step(column, width as int);
    lemma_fundamental_div_mod_converse(height as int, height as int, 1, 0);
    lemma_fundamental_div_mod_converse(width as int, width as int, 1, 0);
    lemma_index_in_grid(height - 1, column, width as int, height as int);
    lemma_index_in_grid(row, width - 1, width as int, height as int);
    lemma_index_in_grid(row, 0, width as int, height as int);
}

/// One update of a dead grid leaves it dead and of the same shape.
proof fn lemma_dead_step(cells: Seq<Cell>, width: nat, height: nat)
    requires
        grid_wf(width, height, cells),
        all_dead(cells),
    ensures
        grid_wf(width, height, next_generation(cells, width, height)),
        all_dead(next_generation(cells, width, height)),
{
    reveal(wrapped_cell);
    let next = next_generation(cells, width, height);
    assert forall|i: int| 0 <= i < next.len() implies #[trigger] next[i] == Cell::Dead by {
        let r = i / (width as int);
        let c = i % (width as int);
        lemma_wrapped_in_grid(width, height, r - 1, c - 1);
        lemma_wrapped_in_grid(width, height, r - 1, c);
        lemma_wrapped_in_grid(width, height, r - 1, c + 1);
        lemma_wrapped_in_grid(width, height, r, c - 1);
        lemma_wrapped_in_grid(width, height, r, c + 1);
        lemma_wrapped_in_grid(width, height, r + 1, c - 1);
        lemma_wrapped_in_grid(width, height, r + 1, c);
        lemma_wrapped_in_grid(width, height, r + 1, c + 1);
        assert(neighbor_count(cells, width, height, r, c) == 0);
    }
}

/// A well-formed grid stays well formed through any number of updates: it
/// keeps one cell per position.
pub proof fn lemma_generations_keep_shape(cells: Seq<Cell>, width: nat, height: nat, k: nat)
    requires
        grid_wf(width, height, cells),
    ensures
        grid_wf(width, height, generation_after(cells, width, height, k)),
    decreases k,
{
    if k > 0 {
        lemma_generations_keep_shape(cells, width, height, (k - 1) as nat);
    }
}

/// A grid with no live cell stays without one through any number of
/// updates.
pub proof fn lemma_dead_grid_stays_dead(cells: Seq<Cell>, width: nat, height: nat, k: nat)
    requires
        grid_wf(width, height, cells),
        all_dead(cells),
    ensures
        grid_wf(width, height, generation_after(cells, width, height, k)),
        all_dead(generation_after(cells, width, height, k)),
    decreases k,
{
    if k > 0 {
        lemma_dead_grid_stays_dead(cells, width, height, (k - 1) as nat);
        lemma_dead_step(generation_after(cells, width, height, (k - 1) as nat), width, height);
    }
}

/// Two grids with the same dimensions and cells have the same next
/// generation: an update depends on nothing but the grid.
pub proof fn lemma_update_deterministic(a: GridModel, b: GridModel)
    requires
        a.width == b.width,
        a.height == b.height,
        a.cells == b.cells,
    ensures
        next_generation(a.cells, a.width, a.height) == next_generation(b.cells, b.width, b.height),
{
}

/// A two-dimensional grid of cells whose edges wrap around.
pub struct Universe {
    framerate: i64,
    width: u32,
    height: u32,
    cells: Vec<Cell>,
}

impl View for Universe {
    type V = GridModel;

    closed spec fn view(&self) -> GridModel {
        GridModel {
            framerate: self.framerate as int,
            width: self.width as nat,
            height: self.height as nat,
            cells: self.cells@,
        }
    }
}

impl Universe {
    /// A universe of `width` by `height` cells, where the cell at flat index
    /// `i` is alive when `i` is even or a multiple of seven. Either dimension
    /// being zero is refused.
    pub fn new(framerate: i64, width: u32, height: u32) -> (r: Result<Universe, UniverseError>)
        ensures
            r is Err <==> (width == 0 || height == 0),
            r is Err ==> r->Err_0 == UniverseError::EmptyDimension,
            r is Ok ==> {
                let u = r->Ok_0;
                &&& u.wf()
                &&& u@.framerate == framerate
                &&& u@.width == width
                &&& u@.height == height
                &&& u@.cells == seeded_cells(width as nat * height as nat)
            },
    {
        if width == 0 || height == 0 {
            return Err(UniverseError::EmptyDimension);
        }
        proof {
            lemma_area_fits(width, height);
        }
        let total: u64 = width as u64 * height as u64;
        let mut cells: Vec<Cell> = Vec::new();
        let mut i: u64 = 0;
        while i < total
            invariant
                total == width as nat * height as nat,
                i <= total,
                cells@ =~= seeded_cells(i as nat),
            decreases total - i,
        {
            let c = if i % 2 == 0 || i % 7 == 0 {
                Cell::Alive
            } else {
                Cell::Dead
            };
            cells.push(c);
            i = i + 1;
        }
        Ok(Universe { framerate, width, height, cells })
    }

    /// A universe holding the given cells, in row-major order. Either
    /// dimension being zero is refused, and so is a number of cells other
    /// than the width times the height.
    pub fn from_cells(framerate: i64, width: u32, height: u32, cells: Vec<Cell>) -> (r: Result<Universe, UniverseError>)
        ensures
            (width == 0 || height == 0) ==> r == Err::<Universe, UniverseError>(UniverseError::EmptyDimension),
            (width > 0 && height > 0 && cells@.len() != width * height)
                ==> r == Err::<Universe, UniverseError>(UniverseError::CellCountMismatch),
            r is Ok <==> grid_wf(width as nat, height as nat, cells@),
            r is Ok ==> {
                let u = r->Ok_0;
                &&& u.wf()
                &&& u@.framerate == framerate
                &&& u@.width == width
                &&& u@.height == height
                &&& u@.cells == cells@
            },
    {
        if width == 0 || height == 0 {
            return Err(UniverseError::EmptyDimension);
        }
        proof {
            lemma_area_fits(width, height);
        }
        if cells.len() as u64 != width as u64 * height as u64 {
            return Err(UniverseError::CellCountMismatch);
        }
        Ok(Universe { framerate, width, height, cells })
    }

    /// The configured number of generations per second.
    pub fn framerate(&self) -> (r: i64)
        ensures
            r == self@.framerate,
    {
        self.framerate
    }

    /// The number of columns.
    pub fn width(&self) -> (r: u32)
        ensures
            r == self@.width,
    {
        self.width
    }

    /// The number of rows.
    pub fn height(&self) -> (r: u32)
        ensures
            r == self@.height,
    {
        self.height
    }

    /// The pause between two generations at the configured frame rate, in
    /// nanoseconds; zero when the frame rate is not positive.
    pub fn frame_interval_nanos(&self) -> (r: u64)
        ensures
            r as int == frame_interval(self@.framerate),
    {
        if self.framerate > 0 {
            (1_000_000_000i64 / self.framerate) as u64
        } else {
            0
        }
    }

    /// The batch that one tick runs: as many generations as the frame rate,
    /// each followed by the frame interval's pause.
    pub fn start_batch(&self) -> (r: Batch)
        ensures
            r@ == batch_start(self@.framerate, frame_interval(self@.framerate) as u64),
    {
        Batch::new(self.framerate, self.frame_interval_nanos())
    }

    /// The cells, in row-major order.
    pub fn cells(&self) -> (r: &Vec<Cell>)
        ensures
            r@ == self@.cells,
    {
        &self.cells
    }

    /// The cell at `(row, column)`, the row taken modulo the height and the
    /// column modulo the width.
    pub fn cell_at(&self, row: u32, column: u32) -> (r: Cell)
        requires
            self.wf(),
        ensures
            r == wrapped_cell(self@.cells, self@.width, self@.height, row as int, column as int),
    {
        let i = self.get_index(row % self.height, column % self.width);
        proof {
            reveal(wrapped_cell);
        }
        self.cells[i]
    }

    /// The glyphs of row `row`, left to right, followed by a newline; a row
    /// past the last one renders as the newline alone.
    pub fn render_row(&self, row: u32) -> (r: Vec<&'static str>)
        requires
            self.wf(),
        ensures
            row < self@.height ==> {
                &&& r@.len() == self@.width + 1
                &&& forall|j: int|
                    0 <= j < self@.width ==> (#[trigger] r@[j])@ == seq![glyph(self@.cells[row * self@.width + j])]
            },
            row >= self@.height ==> r@.len() == 1,
            r@[r@.len() - 1]@ == seq!['\n'],
    {
        let mut output: Vec<&'static str> = Vec::new();
        if row < self.height {
            let mut column: u32 = 0;
            while column < self.width
                invariant
                    self.wf(),
                    row < self@.height,
                    column <= self@.width,
                    output@.len() == column,
                    forall|j: int|
                        0 <= j < column ==> (#[trigger] output@[j])@ == seq![glyph(self@.cells[row * self@.width + j])],
                decreases self@.width - column,
            {
                let idx = self.get_index(row, column);
                output.push(self.cells[idx].render());
                column = column + 1;
            }
        }
        proof {
            reveal_strlit("\n");
        }
        output.push("\n");
        output
    }

    /// The whole frame: every row's text, top to bottom.
    pub fn draw(&self) -> (r: String)
        requires
            self.wf(),
        ensures
            r@ == frame_text(self@.cells, self@.width, self@.height),
    {
        let ghost cells = self@.cells;
        let ghost w = self@.width;
        let mut output = String::new();
        let mut row: u32 = 0;
        while row < self.height
            invariant
                self.wf(),
                cells == self@.cells,
                w == self@.width,
                row <= self@.height,
                output@ == frame_text(cells, w, row as nat),
            decreases self@.height - row,
        {
            let pieces = self.render_row(row);
            proof {
                lemma_row_in_grid(row as int, w as int, self@.height as int);
            }
            let ghost start = row * w;
            let mut k: usize = 0;
            while k < self.width as usize
                invariant
                    self.wf(),
                    cells == self@.cells,
                    w == self@.width,
                    row < self@.height,
                    start == row * w,
                    0 <= start,
                    start + w <= cells.len(),
                    pieces@.len() == w + 1,
                    forall|j: int| 0 <= j < w ==> (#[trigger] pieces@[j])@ == seq![glyph(cells[start + j])],
                    k <= w,
                    output@ == frame_text(cells, w, row as nat)
                        + cells.subrange(start, start + k).map_values(|c: Cell| glyph(c)),
                decreases w - k,
            {
                let ghost before = output@;
                output.append(pieces[k]);
                assert(cells.subrange(start, start + k + 1).map_values(|c: Cell| glyph(c))
                    =~= cells.subrange(start, start + k).map_values(|c: Cell| glyph(c)) + seq![glyph(cells[start + k])]);
                k = k + 1;
            }
            output.append(pieces[k]);
            assert(frame_text(cells, w, (row + 1) as nat) =~= output@);
            row = row + 1;
        }
        output
    }

    /// The universe's grid is well formed.
    pub open spec fn wf(&self) -> bool {
        grid_wf(self@.width, self@.height, self@.cells)
    }

    /// The flat index of a position; the row and the column must already be
    /// inside the grid.
    pub fn get_index(&self, row: u32, column: u32) -> (r: usize)
        requires
            self.wf(),
            row < self@.height,
            column < self@.width,
        ensures
            r as int == row * self@.width + column,
            r < self@.cells.len(),
    {
        let n = self.cells.len();
        proof {
            lemma_index_in_grid(row as int, column as int, self.width as int, self.height as int);
        }
        row as usize * self.width as usize + column as usize
    }

    /// One when the cell at `(row, column)` is alive, zero when it is dead.
    fn value_at(&self, row: u32, column: u32) -> (r: u8)
        requires
            self.wf(),
            row < self@.height,
            column < self@.width,
        ensures
            r as nat == cell_value(self@.cells[row * self@.width + column]),
            r <= 1,
    {
        self.cells[self.get_index(row, column)].value()
    }

    /// The number of live neighbours of the cell at `(row, column)`, with
    /// the grid's edges wrapping around.
    pub fn live_neighbor_count(&self, row: u32, column: u32) -> (r: u8)
        requires
            self.wf(),
            row < self@.height,
            column < self@.width,
        ensures
            r as nat == neighbor_count(self@.cells, self@.width, self@.height, row as int, column as int),
    {
        let up: u32 = if row == 0 { self.height - 1 } else { row - 1 };
        let down: u32 = if row + 1 == self.height { 0 } else { row + 1 };
        let left: u32 = if column == 0 { self.width - 1 } else { column - 1 };
        let right: u32 = if column + 1 == self.width { 0 } else { column + 1 };
        let ghost cells = self@.cells;
        let ghost w = self@.width;
        let ghost h = self@.height;
        proof {
            lemma_neighbor_positions(cells, w, h, row as int, column as int, up as int, down as int, left as int, right as int);
        }
        let a = self.value_at(up, left);
        let b = self.value_at(up, column);
        let c = self.value_at(up, right);
        let d = self.value_at(row, left);
        let e = self.value_at(row, right);
        let f = self.value_at(down, left);
        let g = self.value_at(down, column);
        let k = self.value_at(down, right);
        let count: u8 = a + b + c + d + e + f + g + k;
        count
    }

    /// Replaces the cells with the next generation, computed wholly from the
    /// current one.
    pub fn update(&mut self)
        requires
            old(self).wf(),
        ensures
            final(self).wf(),
            final(self)@.framerate == old(self)@.framerate,
            final(self)@.width == old(self)@.width,
            final(self)@.height == old(self)@.height,
            final(self)@.cells == next_generation(old(self)@.cells, old(self)@.width, old(self)@.height),
    {
        let ghost cells = self@.cells;
        let ghost w = self@.width;
        let ghost h = self@.height;
        let n = self.cells.len();
        let mut next_state: Vec<Cell> = Vec::new();
        let mut pos: usize = 0;
        while pos < n
            invariant
                self.wf(),
                self@.cells == cells,
                self@.width == w,
                self@.height == h,
                n == cells.len(),
                pos <= n,
                next_state@ =~= next_generation(cells, w, h).take(pos as int),
            decreases n - pos,
        {
            proof {
                lemma_index_split(pos as int, w as int, h as int);
            }
            let row = (pos / self.width as usize) as u32;
            let column = (pos % self.width as usize) as u32;
            let live_count = self.live_neighbor_count(row, column);
            let next = match self.cells[pos] {
                Cell::Dead => if live_count == 3 {
                    Cell::Alive
                } else {
                    Cell::Dead
                },
                Cell::Alive => if live_count < 2 {
                    Cell::Dead
                } else if live_count <= 3 {
                    Cell::Alive
                } else {
                    Cell::Dead
                },
            };
            next_state.push(next);
            pos = pos + 1;
        }
        assert(next_state@ =~= next_generation(cells, w, h));
        self.cells = next_state;
    }
}

} // verus!
