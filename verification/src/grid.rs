//! The grid of cells that one generation of the automaton lives on.

use vstd::prelude::*;

verus! {

/// One cell of the grid: an alive flag and an age.  The age counts the
/// generations a cell has stayed alive and is zero on every dead cell.
#[derive(Clone, Copy, PartialEq, Eq, Structural, Debug)]
pub struct Cell {
    pub alive: bool,
    pub age: u8,
}

/// 1 for an alive cell, 0 for a dead one; the unit the population counts add up.
pub open spec fn live_flag(c: Cell) -> nat {
    if c.alive {
        1nat
    } else {
        0nat
    }
}

/// A rectangular grid of cells, indexed `[row][column]`, with explicit
/// dimensions.  The edges are glued toroidally by the transition engine.
#[derive(PartialEq, Debug)]
pub struct Grid {
    pub width: usize,
    pub height: usize,
    pub cells: Vec<Vec<Cell>>,
}

impl Grid {
    /// Structural well-formedness: the nested vectors really form a
    /// `width x height` rectangle.  The product bound is a machine limit so
    /// that the percentage arithmetic of the statistics fits in a `usize`.
    pub open spec fn wf(self) -> bool {
        &&& self.cells@.len() == self.height
        &&& forall|y: int| 0 <= y < self.height ==> self.cells@[y]@.len() == self.width
        &&& 1 <= self.width
        &&& 1 <= self.height
        &&& self.width * self.height * 10000 <= usize::MAX
    }

    /// The cell at column `x`, row `y`.
    pub open spec fn cell(self, x: int, y: int) -> Cell {
        self.cells@[y]@[x]
    }

    /// Runtime check of `wf`, so that unverified callers can validate a grid
    /// before handing it to the library.
    pub fn well_formed(&self) -> (b: bool)
        ensures
            b == self.wf(),
    {
        if self.cells.len() != self.height || self.width < 1 || self.height < 1 {
            return false;
        }
        let area = match self.width.checked_mul(self.height) {
            Some(a) => a,
            None => {
                return false;
            },
        };
        if area.checked_mul(10000).is_none() {
            return false;
        }
        let mut y: usize = 0;
        while y < self.height
            invariant
                y <= self.height,
                self.cells@.len() == self.height,
                forall|j: int| 0 <= j < y ==> self.cells@[j]@.len() == self.width,
            decreases self.height - y,
        {
            if self.cells[y].len() != self.width {
                return false;
            }
            y = y + 1;
        }
        true
    }

    /// A fully dead grid of the given dimensions, every age zero.
    pub fn new_dead(width: usize, height: usize) -> (grid: Grid)
        requires
            1 <= width,
            1 <= height,
            width * height * 10000 <= usize::MAX,
        ensures
            grid.wf(),
            grid.width == width,
            grid.height == height,
            forall|x: int, y: int|
                0 <= x < width && 0 <= y < height ==> grid.cell(x, y) == (Cell {
                    alive: false,
                    age: 0u8,
                }),
    {
        let mut cells: Vec<Vec<Cell>> = Vec::new();
        let mut y: usize = 0;
        while y < height
            invariant
                y <= height,
                cells@.len() == y,
                forall|j: int| 0 <= j < y ==> cells@[j]@.len() == width,
                forall|i: int, j: int|
                    0 <= i < width && 0 <= j < y ==> cells@[j]@[i] == (Cell {
                        alive: false,
                        age: 0u8,
                    }),
            decreases height - y,
        {
            let mut row: Vec<Cell> = Vec::new();
            let mut x: usize = 0;
            while x < width
                invariant
                    x <= width,
                    row@.len() == x,
                    forall|i: int| 0 <= i < x ==> row@[i] == (Cell { alive: false, age: 0u8 }),
                decreases width - x,
            {
                row.push(Cell { alive: false, age: 0 });
                x = x + 1;
            }
            cells.push(row);
            y = y + 1;
        }
        Grid { width, height, cells }
    }

    /// Force the cell at `(x, y)` alive, leaving its age and every other cell
    /// as they were.
    pub fn force_alive(&mut self, x: usize, y: usize)
        requires
            old(self).wf(),
            x < old(self).width,
            y < old(self).height,
        ensures
            final(self).wf(),
            final(self).width == old(self).width,
            final(self).height == old(self).height,
            final(self).cell(x as int, y as int) == (Cell {
                alive: true,
                age: old(self).cell(x as int, y as int).age,
            }),
            forall|i: int, j: int|
                0 <= i < old(self).width && 0 <= j < old(self).height && !(i == x && j == y)
                    ==> final(self).cell(i, j) == old(self).cell(i, j),
    {
        let age = self.cells[y][x].age;
        self.cells[y][x] = Cell { alive: true, age };
    }
}

/// How many of the first `n` cells of a row are alive.
pub open spec fn alive_in_row(row: Seq<Cell>, n: int) -> nat
    decreases n,
{
    if n <= 0 {
        0nat
    } else {
        alive_in_row(row, n - 1) + live_flag(row[n - 1])
    }
}

/// How many of the first `n` cells of a row are dead.
pub open spec fn dead_in_row(row: Seq<Cell>, n: int) -> nat
    decreases n,
{
    if n <= 0 {
        0nat
    } else {
        dead_in_row(row, n - 1) + if row[n - 1].alive {
            0nat
        } else {
            1nat
        }
    }
}

/// How many cells of the first `rows` rows of `g` are alive.
pub open spec fn alive_in_rows(g: Grid, rows: int) -> nat
    decreases rows,
{
    if rows <= 0 {
        0nat
    } else {
        alive_in_rows(g, rows - 1) + alive_in_row(g.cells@[rows - 1]@, g.width as int)
    }
}

/// How many cells of the first `rows` rows of `g` are dead.
pub open spec fn dead_in_rows(g: Grid, rows: int) -> nat
    decreases rows,
{
    if rows <= 0 {
        0nat
    } else {
        dead_in_rows(g, rows - 1) + dead_in_row(g.cells@[rows - 1]@, g.width as int)
    }
}

/// The number of alive cells of the whole grid.
pub open spec fn alive_cells(g: Grid) -> nat {
    alive_in_rows(g, g.height as int)
}

/// The number of dead cells of the whole grid.
pub open spec fn dead_cells(g: Grid) -> nat {
    dead_in_rows(g, g.height as int)
}

proof fn lemma_row_partition(row: Seq<Cell>, n: int)
    requires
        0 <= n,
    ensures
        alive_in_row(row, n) + dead_in_row(row, n) == n,
    decreases n,
{
    if n > 0 {
        lemma_row_partition(row, n - 1);
    }
}

proof fn lemma_rows_partition(g: Grid, rows: int)
    requires
        g.wf(),
        0 <= rows <= g.height,
    ensures
        alive_in_rows(g, rows) + dead_in_rows(g, rows) == rows * g.width,
    decreases rows,
{
    if rows > 0 {
        lemma_rows_partition(g, rows - 1);
        lemma_row_partition(g.cells@[rows - 1]@, g.width as int);
        assert((rows - 1) * g.width + g.width == rows * g.width) by (nonlinear_arith);
    } else {
        assert(0 * g.width == 0) by (nonlinear_arith);
    }
}

/// Every cell is either alive or dead: the two population counts always sum
/// to the grid's area.
pub proof fn lemma_alive_dead_partition(g: Grid)
    requires
        g.wf(),
    ensures
        alive_cells(g) + dead_cells(g) == g.width * g.height,
{
    lemma_rows_partition(g, g.height as int);
    assert(g.height * g.width == g.width * g.height) by (nonlinear_arith);
}

} // verus!
