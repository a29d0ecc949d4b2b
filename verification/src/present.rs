//! The presenter: per-cell glyph and color selection, the row-major render
//! plan, and the aggregate statistics of a generation.

use vstd::prelude::*;
use crate::grid::Cell;
use crate::grid::Grid;
use crate::grid::alive_cells;
use crate::grid::alive_in_row;
use crate::grid::alive_in_rows;
use crate::grid::dead_cells;
use crate::grid::lemma_alive_dead_partition;

verus! {

/// The palette the presenter draws from.  Dead cells are grey; alive cells
/// move through the palette as they age.
#[derive(Clone, Copy, PartialEq, Eq, Structural, Debug)]
pub enum CellColor {
    Grey,
    White,
    Yellow,
    Green,
    Cyan,
    Blue,
    Magenta,
}

/// The color mapping rule: dead cells are grey; alive cells are colored by
/// age bucket, first match wins.
pub open spec fn spec_cell_color(c: Cell) -> CellColor {
    if !c.alive {
        CellColor::Grey
    } else if c.age <= 1 {
        CellColor::White
    } else if c.age <= 3 {
        CellColor::Yellow
    } else if c.age <= 6 {
        CellColor::Green
    } else if c.age <= 10 {
        CellColor::Cyan
    } else if c.age <= 15 {
        CellColor::Blue
    } else {
        CellColor::Magenta
    }
}

/// Pick the color a cell is drawn with.
pub fn cell_color(cell: &Cell) -> (color: CellColor)
    ensures
        color == spec_cell_color(*cell),
{
    if !cell.alive {
        return CellColor::Grey;
    }
    if cell.age <= 1 {
        CellColor::White
    } else if cell.age <= 3 {
        CellColor::Yellow
    } else if cell.age <= 6 {
        CellColor::Green
    } else if cell.age <= 10 {
        CellColor::Cyan
    } else if cell.age <= 15 {
        CellColor::Blue
    } else {
        CellColor::Magenta
    }
}

/// The glyph a cell is drawn with: a filled block when alive, a space when
/// dead.
pub open spec fn spec_cell_glyph(c: Cell) -> char {
    if c.alive {
        '\u{25a0}'
    } else {
        ' '
    }
}

/// Pick the glyph a cell is drawn with.
pub fn cell_glyph(cell: &Cell) -> (glyph: char)
    ensures
        glyph == spec_cell_glyph(*cell),
{
    if cell.alive {
        '\u{25a0}'
    } else {
        ' '
    }
}

/// One drawing instruction of a frame: place the cursor at column `x`,
/// row `y`, set `color`, draw `glyph`.
#[derive(Clone, Copy, PartialEq, Eq, Structural, Debug)]
pub struct RenderCell {
    pub x: usize,
    pub y: usize,
    pub color: CellColor,
    pub glyph: char,
}

/// The instruction that draws the cell at `(x, y)` of `g`.
pub open spec fn render_op(g: Grid, x: int, y: int) -> RenderCell {
    RenderCell {
        x: x as usize,
        y: y as usize,
        color: spec_cell_color(g.cell(x, y)),
        glyph: spec_cell_glyph(g.cell(x, y)),
    }
}

/// The full render plan of one frame: one instruction per cell, in row-major
/// order, each with the cell's coordinates, color and glyph.
pub fn render_frame(grid: &Grid) -> (ops: Vec<RenderCell>)
    requires
        grid.wf(),
    ensures
        ops@.len() == grid.width * grid.height,
        forall|k: int|
            0 <= k < ops@.len() ==> ops@[k] == render_op(
                *grid,
                k % (grid.width as int),
                k / (grid.width as int),
            ),
{
    let ghost w = grid.width as int;
    let mut ops: Vec<RenderCell> = Vec::new();
    let mut y: usize = 0;
    while y < grid.height
        invariant
            grid.wf(),
            y <= grid.height,
            ops@.len() == y * w,
            w == grid.width as int,
            forall|k: int| 0 <= k < ops@.len() ==> ops@[k] == render_op(*grid, k % w, k / w),
        decreases grid.height - y,
    {
        let mut x: usize = 0;
        while x < grid.width
            invariant
                grid.wf(),
                y < grid.height,
                x <= grid.width,
                ops@.len() == y * w + x,
                w == grid.width as int,
                forall|k: int| 0 <= k < ops@.len() ==> ops@[k] == render_op(*grid, k % w, k / w),
            decreases grid.width - x,
        {
            let cell = grid.cells[y][x];
            let op = RenderCell { x, y, color: cell_color(&cell), glyph: cell_glyph(&cell) };
            ops.push(op);
            proof {
                let k0 = y * w + x;
                vstd::arithmetic::div_mod::lemma_fundamental_div_mod_converse(
                    k0,
                    w,
                    y as int,
                    x as int,
                );
                assert(ops@[k0] == render_op(*grid, x as int, y as int));
            }
            x = x + 1;
        }
        proof {
            assert(y * w + w == (y + 1) * w) by (nonlinear_arith);
        }
        y = y + 1;
    }
    proof {
        assert(y * w == (grid.height as int) * w);
        assert((grid.height as int) * w == grid.width * grid.height) by (nonlinear_arith)
            requires
                w == grid.width as int,
        ;
    }
    ops
}

/// The ephemeral statistics of one generation: population counts and the
/// alive percentage in hundredths of a percent (two-decimal precision held
/// exactly in an integer).
#[derive(Clone, Copy, PartialEq, Eq, Structural, Debug)]
pub struct GridStats {
    pub generation: u64,
    pub alive_cells: usize,
    pub dead_cells: usize,
    pub total_cells: usize,
    /// `alive_cells / total_cells`, as a percentage scaled by 100: the value
    /// 100 means 1.00 %.
    pub alive_percent_hundredths: usize,
}

proof fn lemma_alive_in_row_le(row: Seq<Cell>, n: int)
    requires
        0 <= n,
    ensures
        alive_in_row(row, n) <= n,
    decreases n,
{
    if n > 0 {
        lemma_alive_in_row_le(row, n - 1);
    }
}

proof fn lemma_alive_in_rows_le(g: Grid, rows: int)
    requires
        g.wf(),
        0 <= rows <= g.height,
    ensures
        alive_in_rows(g, rows) <= rows * g.width,
    decreases rows,
{
    if rows > 0 {
        lemma_alive_in_rows_le(g, rows - 1);
        lemma_alive_in_row_le(g.cells@[rows - 1]@, g.width as int);
        assert((rows - 1) * g.width + g.width == rows * g.width) by (nonlinear_arith);
    } else {
        assert(0 * g.width == 0) by (nonlinear_arith);
    }
}

/// Compute the statistics of `grid` at generation `generation`: the alive
/// and dead counts, the area, and the alive percentage in hundredths.
pub fn calculate_grid_stats(grid: &Grid, generation: u64) -> (stats: GridStats)
    requires
        grid.wf(),
    ensures
        stats.generation == generation,
        stats.total_cells == grid.width * grid.height,
        stats.alive_cells == alive_cells(*grid),
        stats.dead_cells == dead_cells(*grid),
        stats.alive_cells + stats.dead_cells == stats.total_cells,
        stats.alive_percent_hundredths == alive_cells(*grid) as int * 10000 / ((grid.width
            * grid.height) as int),
{
    proof {
        assert(grid.width * grid.height <= grid.width * grid.height * 10000
            && 1 <= grid.width * grid.height) by (nonlinear_arith)
            requires
                1 <= grid.width,
                1 <= grid.height,
        ;
    }
    let total: usize = grid.width * grid.height;
    let mut alive: usize = 0;
    let mut y: usize = 0;
    while y < grid.height
        invariant
            grid.wf(),
            y <= grid.height,
            alive as nat == alive_in_rows(*grid, y as int),
            alive <= y * grid.width,
            total == grid.width * grid.height,
            grid.width * grid.height <= usize::MAX,
        decreases grid.height - y,
    {
        proof {
            lemma_alive_in_rows_le(*grid, y as int);
        }
        let mut x: usize = 0;
        while x < grid.width
            invariant
                grid.wf(),
                y < grid.height,
                x <= grid.width,
                alive as nat == alive_in_rows(*grid, y as int) + alive_in_row(
                    grid.cells@[y as int]@,
                    x as int,
                ),
                alive <= y * grid.width + x,
                total == grid.width * grid.height,
                grid.width * grid.height <= usize::MAX,
            decreases grid.width - x,
        {
            proof {
                assert(y * grid.width + x + 1 <= grid.width * grid.height) by (nonlinear_arith)
                    requires
                        y < grid.height,
                        x < grid.width,
                ;
            }
            if grid.cells[y][x].alive {
                alive = alive + 1;
            }
            x = x + 1;
        }
        proof {
            assert(y * grid.width + grid.width == (y + 1) * grid.width) by (nonlinear_arith);
        }
        y = y + 1;
    }
    proof {
        lemma_alive_in_rows_le(*grid, grid.height as int);
        assert((grid.height as int) * grid.width == grid.width * grid.height)
            by (nonlinear_arith);
        lemma_alive_dead_partition(*grid);
        assert(alive * 10000 <= grid.width * grid.height * 10000) by (nonlinear_arith)
            requires
                alive <= grid.width * grid.height,
        ;
        assert(alive <= total);
    }
    let dead: usize = total - alive;
    let percent_hundredths: usize = alive * 10000 / total;
    GridStats {
        generation,
        alive_cells: alive,
        dead_cells: dead,
        total_cells: total,
        alive_percent_hundredths: percent_hundredths,
    }
}

} // verus!
