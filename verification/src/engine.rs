//! The transition engine: toroidal neighbor counting and the Life rule.

use vstd::prelude::*;
use crate::grid::Cell;
use crate::grid::Grid;
use crate::grid::live_flag;

verus! {

/// Toroidal coordinate arithmetic: move `i` by `delta` along an axis of
/// length `size`, wrapping modulo `size` so the edges are glued together.
pub open spec fn wrap(i: int, delta: int, size: int) -> int {
    (i + delta + size) % size
}

/// 1 if the cell at `(x, y)` is alive, else 0.
pub open spec fn live_at(g: Grid, x: int, y: int) -> nat {
    live_flag(g.cell(x, y))
}

/// The number of alive cells among the eight toroidally adjacent neighbors of
/// `(x, y)`, all read from the same grid `g` (the previous generation).
pub open spec fn live_neighbor_count(g: Grid, x: int, y: int) -> nat {
    let w = g.width as int;
    let h = g.height as int;
    live_at(g, wrap(x, -1, w), wrap(y, -1, h)) + live_at(g, wrap(x, 0, w), wrap(y, -1, h))
        + live_at(g, wrap(x, 1, w), wrap(y, -1, h)) + live_at(g, wrap(x, -1, w), wrap(y, 0, h))
        + live_at(g, wrap(x, 1, w), wrap(y, 0, h)) + live_at(g, wrap(x, -1, w), wrap(y, 1, h))
        + live_at(g, wrap(x, 0, w), wrap(y, 1, h)) + live_at(g, wrap(x, 1, w), wrap(y, 1, h))
}

/// Age increment that sticks at the maximum instead of wrapping.
pub open spec fn saturating_inc(age: u8) -> u8 {
    if age == u8::MAX {
        u8::MAX
    } else {
        (age + 1) as u8
    }
}

/// The classic Life rule, applied to one cell with `n` alive neighbors:
/// an alive cell survives with 2 or 3 neighbors and grows older, a dead cell
/// with exactly 3 neighbors is born with age 0, every other cell is dead
/// with age 0.
pub open spec fn next_cell(c: Cell, n: nat) -> Cell {
    if c.alive && (n == 2 || n == 3) {
        Cell { alive: true, age: saturating_inc(c.age) }
    } else if !c.alive && n == 3 {
        Cell { alive: true, age: 0u8 }
    } else {
        Cell { alive: false, age: 0u8 }
    }
}

/// `r` is the generation that follows `g`: same dimensions, and every cell of
/// `r` is the Life rule applied to the matching cell of `g` with its neighbor
/// count taken wholly from `g`.  This pins `r` down cell for cell, so the
/// transition is deterministic.
pub open spec fn is_successor(g: Grid, r: Grid) -> bool {
    &&& r.width == g.width
    &&& r.height == g.height
    &&& r.cells@.len() == g.height
    &&& forall|y: int| 0 <= y < g.height ==> r.cells@[y]@.len() == g.width
    &&& forall|x: int, y: int|
        0 <= x < g.width && 0 <= y < g.height ==> r.cell(x, y) == next_cell(
            g.cell(x, y),
            live_neighbor_count(g, x, y),
        )
}

/// A dead cell never carries an age into the next generation: whatever its
/// neighbor count, the successor cell of a dead cell has age 0, whether it
/// stays dead or is born.
pub proof fn lemma_dead_cell_next_age_zero(g: Grid, r: Grid, x: int, y: int)
    requires
        g.wf(),
        is_successor(g, r),
        0 <= x < g.width,
        0 <= y < g.height,
        !g.cell(x, y).alive,
    ensures
        r.cell(x, y).age == 0,
{
}

/// The transition is a pure function of the input grid: any two grids that
/// both stand in the successor relation to the same grid agree on their
/// dimensions and on every cell.
pub proof fn lemma_transition_deterministic(g: Grid, r1: Grid, r2: Grid)
    requires
        g.wf(),
        is_successor(g, r1),
        is_successor(g, r2),
    ensures
        r1.width == r2.width,
        r1.height == r2.height,
        forall|x: int, y: int|
            0 <= x < r1.width && 0 <= y < r1.height ==> r1.cell(x, y) == r2.cell(x, y),
{
}

/// Toroidal wrap across columns: an alive cell in column 0 is counted as a
/// neighbor of the cell in column `width - 1` of the same or an adjacent row.
pub proof fn lemma_toroidal_wrap_column(g: Grid, y: int, y2: int)
    requires
        g.wf(),
        g.width >= 2,
        0 <= y < g.height,
        y2 == wrap(y, -1, g.height as int) || y2 == y || y2 == wrap(y, 1, g.height as int),
        g.cell(0, y2).alive,
    ensures
        live_neighbor_count(g, g.width - 1, y) >= 1,
{
    let w = g.width as int;
    let h = g.height as int;
    lemma_wrap_step(w - 1, 1, w);
    lemma_wrap_step(y, -1, h);
    lemma_wrap_step(y, 0, h);
    lemma_wrap_step(y, 1, h);
    assert(wrap(w - 1, 1, w) == 0);
    if y2 == wrap(y, -1, h) {
        assert(live_at(g, wrap(w - 1, 1, w), wrap(y, -1, h)) == 1);
    } else if y2 == y {
        assert(live_at(g, wrap(w - 1, 1, w), wrap(y, 0, h)) == 1);
    } else {
        assert(live_at(g, wrap(w - 1, 1, w), wrap(y, 1, h)) == 1);
    }
}

/// Toroidal wrap across rows: an alive cell in row 0 is counted as a
/// neighbor of the cell in row `height - 1` of the same or an adjacent
/// column.
pub proof fn lemma_toroidal_wrap_row(g: Grid, x: int, x2: int)
    requires
        g.wf(),
        g.height >= 2,
        0 <= x < g.width,
        x2 == wrap(x, -1, g.width as int) || x2 == x || x2 == wrap(x, 1, g.width as int),
        g.cell(x2, 0).alive,
    ensures
        live_neighbor_count(g, x, g.height - 1) >= 1,
{
    let w = g.width as int;
    let h = g.height as int;
    lemma_wrap_step(h - 1, 1, h);
    lemma_wrap_step(x, -1, w);
    lemma_wrap_step(x, 0, w);
    lemma_wrap_step(x, 1, w);
    assert(wrap(h - 1, 1, h) == 0);
    if x2 == wrap(x, -1, w) {
        assert(live_at(g, wrap(x, -1, w), wrap(h - 1, 1, h)) == 1);
    } else if x2 == x {
        assert(live_at(g, wrap(x, 0, w), wrap(h - 1, 1, h)) == 1);
    } else {
        assert(live_at(g, wrap(x, 1, w), wrap(h - 1, 1, h)) == 1);
    }
}

/// Age saturates instead of wrapping: a surviving cell that has already
/// reached the maximum representable age keeps that maximum.
pub proof fn lemma_age_saturation(c: Cell, n: nat)
    requires
        c.alive,
        c.age == u8::MAX,
        n == 2 || n == 3,
    ensures
        next_cell(c, n).alive,
        next_cell(c, n).age == u8::MAX,
{
}

/// The alive cells of `g` are exactly the 2 x 2 block whose upper-left
/// corner is `(x0, y0)`.
pub open spec fn lone_block(g: Grid, x0: int, y0: int) -> bool {
    forall|x: int, y: int|
        0 <= x < g.width && 0 <= y < g.height ==> (g.cell(x, y).alive <==> (x0 <= x <= x0 + 1
            && y0 <= y <= y0 + 1))
}

/// A 2 x 2 block whose surrounding ring of twelve cells is dead keeps all
/// four of its cells alive through one transition, each one generation
/// older, whatever lives elsewhere on the grid: each block cell sees exactly
/// its three block mates as neighbors.
pub proof fn lemma_block_cells_survive(g: Grid, r: Grid, x0: int, y0: int)
    requires
        g.wf(),
        is_successor(g, r),
        1 <= x0,
        x0 + 2 < g.width,
        1 <= y0,
        y0 + 2 < g.height,
        forall|x: int, y: int|
            x0 - 1 <= x <= x0 + 2 && y0 - 1 <= y <= y0 + 2 ==> (g.cell(x, y).alive <==> (x0 <= x
                <= x0 + 1 && y0 <= y <= y0 + 1)),
    ensures
        forall|x: int, y: int|
            x0 <= x <= x0 + 1 && y0 <= y <= y0 + 1 ==> r.cell(x, y) == (Cell {
                alive: true,
                age: saturating_inc(g.cell(x, y).age),
            }),
{
    let w = g.width as int;
    let h = g.height as int;
    assert forall|x: int, y: int|
        x0 <= x <= x0 + 1 && y0 <= y <= y0 + 1 implies live_neighbor_count(g, x, y) == 3nat by {
        lemma_wrap_step(x, -1, w);
        lemma_wrap_step(x, 0, w);
        lemma_wrap_step(x, 1, w);
        lemma_wrap_step(y, -1, h);
        lemma_wrap_step(y, 0, h);
        lemma_wrap_step(y, 1, h);
    }
}

/// A 2 x 2 block away from the edges is a still life: when it is the only
/// thing alive, the next generation again holds exactly that block, each of
/// its four cells one generation older.  Since the hypothesis is re-established,
/// the block persists unchanged through any number of transitions.
pub proof fn lemma_block_still_life(g: Grid, r: Grid, x0: int, y0: int)
    requires
        g.wf(),
        is_successor(g, r),
        1 <= x0,
        x0 + 2 < g.width,
        1 <= y0,
        y0 + 2 < g.height,
        lone_block(g, x0, y0),
    ensures
        lone_block(r, x0, y0),
        forall|x: int, y: int|
            x0 <= x <= x0 + 1 && y0 <= y <= y0 + 1 ==> r.cell(x, y) == (Cell {
                alive: true,
                age: saturating_inc(g.cell(x, y).age),
            }),
{
    let w = g.width as int;
    let h = g.height as int;
    assert forall|x: int, y: int|
        x0 - 1 <= x <= x0 + 2 && y0 - 1 <= y <= y0 + 2 implies live_neighbor_count(g, x, y)
        == if x0 <= x <= x0 + 1 && y0 <= y <= y0 + 1 {
        3nat
    } else if x0 - 1 <= x <= x0 + 2 && y0 - 1 <= y <= y0 + 2 && (x == x0 - 1 || x == x0 + 2) && (y
        == y0 - 1 || y == y0 + 2) {
        1nat
    } else {
        2nat
    } by {
        lemma_wrap_step(x, -1, w);
        lemma_wrap_step(x, 0, w);
        lemma_wrap_step(x, 1, w);
        lemma_wrap_step(y, -1, h);
        lemma_wrap_step(y, 0, h);
        lemma_wrap_step(y, 1, h);
    }
    assert forall|x: int, y: int|
        0 <= x < w && 0 <= y < h && !(x0 - 1 <= x <= x0 + 2 && y0 - 1 <= y <= y0 + 2) implies
        live_neighbor_count(g, x, y) == 0nat by {
        lemma_wrap_step(x, -1, w);
        lemma_wrap_step(x, 0, w);
        lemma_wrap_step(x, 1, w);
        lemma_wrap_step(y, -1, h);
        lemma_wrap_step(y, 0, h);
        lemma_wrap_step(y, 1, h);
    }
}

/// `wrap` moved by at most one step stays in range and agrees with the
/// branch-wise description an implementation uses.
pub proof fn lemma_wrap_step(i: int, delta: int, size: int)
    requires
        0 < size,
        0 <= i < size,
        -1 <= delta <= 1,
    ensures
        0 <= wrap(i, delta, size) < size,
        wrap(i, delta, size) == if i + delta < 0 {
            i + delta + size
        } else if i + delta >= size {
            i + delta - size
        } else {
            i + delta
        },
{
    if i + delta < 0 {
        vstd::arithmetic::div_mod::lemma_small_mod((i + delta + size) as nat, size as nat);
    } else if i + delta >= size {
        vstd::arithmetic::div_mod::lemma_mod_multiples_vanish(1, i + delta, size);
        vstd::arithmetic::div_mod::lemma_mod_multiples_vanish(1, i + delta - size, size);
        vstd::arithmetic::div_mod::lemma_small_mod((i + delta - size) as nat, size as nat);
    } else {
        vstd::arithmetic::div_mod::lemma_mod_multiples_vanish(1, i + delta, size);
        vstd::arithmetic::div_mod::lemma_small_mod((i + delta) as nat, size as nat);
    }
}

/// Step one coordinate down with wraparound; matches `wrap(i, -1, size)`.
fn wrap_dec(i: usize, size: usize) -> (r: usize)
    requires
        i < size,
    ensures
        r < size,
        r as int == wrap(i as int, -1, size as int),
{
    let r = if i == 0 {
        size - 1
    } else {
        i - 1
    };
    proof {
        lemma_wrap_step(i as int, -1, size as int);
    }
    r
}

/// Step one coordinate up with wraparound; matches `wrap(i, 1, size)`.
fn wrap_inc(i: usize, size: usize) -> (r: usize)
    requires
        i < size,
    ensures
        r < size,
        r as int == wrap(i as int, 1, size as int),
{
    let r = if i + 1 == size {
        0
    } else {
        i + 1
    };
    proof {
        lemma_wrap_step(i as int, 1, size as int);
    }
    r
}

/// Count the alive cells among the eight toroidal neighbors of `(x, y)`.
pub fn count_live_neighbors(grid: &Grid, x: usize, y: usize) -> (count: u8)
    requires
        grid.wf(),
        x < grid.width,
        y < grid.height,
    ensures
        count as nat == live_neighbor_count(*grid, x as int, y as int),
        count <= 8,
{
    let xl = wrap_dec(x, grid.width);
    let xr = wrap_inc(x, grid.width);
    let yu = wrap_dec(y, grid.height);
    let yd = wrap_inc(y, grid.height);
    proof {
        lemma_wrap_step(x as int, 0, grid.width as int);
        lemma_wrap_step(y as int, 0, grid.height as int);
    }
    let mut count: u8 = 0;
    if grid.cells[yu][xl].alive {
        count = count + 1;
    }
    if grid.cells[yu][x].alive {
        count = count + 1;
    }
    if grid.cells[yu][xr].alive {
        count = count + 1;
    }
    if grid.cells[y][xl].alive {
        count = count + 1;
    }
    if grid.cells[y][xr].alive {
        count = count + 1;
    }
    if grid.cells[yd][xl].alive {
        count = count + 1;
    }
    if grid.cells[yd][x].alive {
        count = count + 1;
    }
    if grid.cells[yd][xr].alive {
        count = count + 1;
    }
    count
}

/// Compute the next generation: a wholly new grid, every cell of which is the
/// Life rule applied to the old grid, with simultaneous-update semantics
/// (all neighbor counts come from the old grid).
pub fn update_grid(grid: &Grid) -> (next: Grid)
    requires
        grid.wf(),
    ensures
        next.wf(),
        is_successor(*grid, next),
{
    let mut cells: Vec<Vec<Cell>> = Vec::new();
    let mut y: usize = 0;
    while y < grid.height
        invariant
            grid.wf(),
            y <= grid.height,
            cells@.len() == y,
            forall|j: int| 0 <= j < y ==> cells@[j]@.len() == grid.width,
            forall|i: int, j: int|
                0 <= i < grid.width && 0 <= j < y ==> cells@[j]@[i] == next_cell(
                    grid.cell(i, j),
                    live_neighbor_count(*grid, i, j),
                ),
        decreases grid.height - y,
    {
        let mut row: Vec<Cell> = Vec::new();
        let mut x: usize = 0;
        while x < grid.width
            invariant
                grid.wf(),
                y < grid.height,
                x <= grid.width,
                row@.len() == x,
                forall|i: int|
                    0 <= i < x ==> row@[i] == next_cell(
                        grid.cell(i, y as int),
                        live_neighbor_count(*grid, i, y as int),
                    ),
            decreases grid.width - x,
        {
            let n = count_live_neighbors(grid, x, y);
            let c = grid.cells[y][x];
            let new_c = if c.alive && (n == 2 || n == 3) {
                Cell { alive: true, age: if c.age == u8::MAX { u8::MAX } else { c.age + 1 } }
            } else if !c.alive && n == 3 {
                Cell { alive: true, age: 0 }
            } else {
                Cell { alive: false, age: 0 }
            };
            row.push(new_c);
            x = x + 1;
        }
        cells.push(row);
        y = y + 1;
    }
    Grid { width: grid.width, height: grid.height, cells }
}

} // verus!
