//! Simulation parameters, gathered in one explicit structure instead of
//! ambient constants, so that small grids can be exercised as easily as the
//! default terminal-sized one.

use vstd::prelude::*;

verus! {

/// The fixed parameters of a run: grid dimensions, the seeding probability
/// as a ratio, and the generation rate.
///
/// Defaults: an 80 x 30 grid, each cell seeded alive with probability 3/10,
/// 10 generations per second.
#[derive(Clone, Copy, PartialEq, Eq, Structural, Debug)]
pub struct Config {
    pub width: usize,
    pub height: usize,
    /// Numerator of the probability that a seeded cell starts alive.
    pub alive_numerator: u32,
    /// Denominator of that probability; the ratio must not exceed 1.
    pub alive_denominator: u32,
    pub generations_per_second: u64,
}

impl Config {
    /// A usable configuration: the grid holds the fixed seed pattern
    /// (which spans 3 x 3 cells), the probability is a genuine ratio, the
    /// rate is positive, and the area is small enough for the statistics
    /// arithmetic to stay within `usize`.
    pub open spec fn wf(self) -> bool {
        &&& 3 <= self.width
        &&& 3 <= self.height
        &&& 0 < self.alive_denominator
        &&& self.alive_numerator <= self.alive_denominator
        &&& 1 <= self.generations_per_second
        &&& self.width * self.height * 10000 <= usize::MAX
    }

    /// Runtime check of `wf`, for unverified callers.
    pub fn well_formed(&self) -> (b: bool)
        ensures
            b == self.wf(),
    {
        if self.width < 3 || self.height < 3 {
            return false;
        }
        if self.alive_denominator == 0 || self.alive_numerator > self.alive_denominator {
            return false;
        }
        if self.generations_per_second < 1 {
            return false;
        }
        let area = match self.width.checked_mul(self.height) {
            Some(a) => a,
            None => {
                return false;
            },
        };
        area.checked_mul(10000).is_some()
    }

    /// How long the driver pauses between generations, in milliseconds.
    pub fn frame_interval_ms(&self) -> (ms: u64)
        requires
            self.wf(),
        ensures
            ms == 1000u64 / self.generations_per_second,
    {
        1000 / self.generations_per_second
    }
}

impl Default for Config {
    /// The default parameters of the simulator.
    fn default() -> (c: Config)
        ensures
            c == (Config {
                width: 80usize,
                height: 30usize,
                alive_numerator: 3u32,
                alive_denominator: 10u32,
                generations_per_second: 10u64,
            }),
            c.wf(),
    {
        Config {
            width: 80,
            height: 30,
            alive_numerator: 3,
            alive_denominator: 10,
            generations_per_second: 10,
        }
    }
}

} // verus!
