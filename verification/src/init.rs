//! The initializer: random per-cell seeding plus the fixed glider overlay.

use vstd::prelude::*;
use rand::Rng;
use crate::config::Config;
use crate::grid::Cell;
use crate::grid::Grid;

verus! {

/// Relies on `rand::thread_rng` and `Rng::gen_ratio`: returns `true` with
/// probability `numerator / denominator`.  `gen_ratio` panics (through
/// `Bernoulli::from_ratio(..).unwrap()`) when the denominator is zero or the
/// numerator exceeds it, so those inputs are excluded.  Nothing is promised
/// of the outcome: it is random.
#[verifier::external_body]
fn random_chance(numerator: u32, denominator: u32) -> bool
    requires
        0 < denominator,
        numerator <= denominator,
{
    rand::thread_rng().gen_ratio(numerator, denominator)
}

/// Whether `(x, y)` is one of the five cells of the fixed glider pattern
/// that the initializer forces alive near the origin.
pub open spec fn is_glider_cell(x: int, y: int) -> bool {
    ||| (x == 1 && y == 0)
    ||| (x == 2 && y == 1)
    ||| (x == 0 && y == 2)
    ||| (x == 1 && y == 2)
    ||| (x == 2 && y == 2)
}

/// Force the five glider cells alive, leaving ages and all other cells
/// untouched.
pub fn apply_glider(grid: &mut Grid)
    requires
        old(grid).wf(),
        3 <= old(grid).width,
        3 <= old(grid).height,
    ensures
        final(grid).wf(),
        final(grid).width == old(grid).width,
        final(grid).height == old(grid).height,
        forall|x: int, y: int|
            0 <= x < old(grid).width && 0 <= y < old(grid).height && is_glider_cell(x, y)
                ==> final(grid).cell(x, y) == (Cell {
                alive: true,
                age: old(grid).cell(x, y).age,
            }),
        forall|x: int, y: int|
            0 <= x < old(grid).width && 0 <= y < old(grid).height && !is_glider_cell(x, y)
                ==> final(grid).cell(x, y) == old(grid).cell(x, y),
{
    grid.force_alive(1, 0);
    grid.force_alive(2, 1);
    grid.force_alive(0, 2);
    grid.force_alive(1, 2);
    grid.force_alive(2, 2);
}

/// Produce the starting grid: every cell independently alive with the
/// configured probability and age 0, then the glider pattern forced alive on
/// top of the random seed.
pub fn initialize_grid(cfg: &Config) -> (grid: Grid)
    requires
        cfg.wf(),
    ensures
        grid.wf(),
        grid.width == cfg.width,
        grid.height == cfg.height,
        forall|x: int, y: int| 0 <= x < cfg.width && 0 <= y < cfg.height ==> grid.cell(x, y).age == 0,
        forall|x: int, y: int|
            0 <= x < cfg.width && 0 <= y < cfg.height && is_glider_cell(x, y) ==> grid.cell(
                x,
                y,
            ).alive,
{
    let mut cells: Vec<Vec<Cell>> = Vec::new();
    let mut y: usize = 0;
    while y < cfg.height
        invariant
            cfg.wf(),
            y <= cfg.height,
            cells@.len() == y,
            forall|j: int| 0 <= j < y ==> cells@[j]@.len() == cfg.width,
            forall|i: int, j: int| 0 <= i < cfg.width && 0 <= j < y ==> cells@[j]@[i].age == 0,
        decreases cfg.height - y,
    {
        let mut row: Vec<Cell> = Vec::new();
        let mut x: usize = 0;
        while x < cfg.width
            invariant
                cfg.wf(),
                x <= cfg.width,
                row@.len() == x,
                forall|i: int| 0 <= i < x ==> row@[i].age == 0,
            decreases cfg.width - x,
        {
            let alive = random_chance(cfg.alive_numerator, cfg.alive_denominator);
            row.push(Cell { alive, age: 0 });
            x = x + 1;
        }
        cells.push(row);
        y = y + 1;
    }
    let mut grid = Grid { width: cfg.width, height: cfg.height, cells };
    let ghost seeded = grid;
    apply_glider(&mut grid);
    proof {
        assert forall|x: int, y: int|
            0 <= x < cfg.width && 0 <= y < cfg.height implies grid.cell(x, y).age == 0 by {
            if is_glider_cell(x, y) {
                assert(grid.cell(x, y) == (Cell { alive: true, age: seeded.cell(x, y).age }));
            } else {
                assert(grid.cell(x, y) == seeded.cell(x, y));
            }
        }
    }
    grid
}

} // verus!
