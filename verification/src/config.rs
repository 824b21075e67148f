use vstd::prelude::*;
use crate::float_ord::{f64_bits_ge, f64_bits_gt, ge_bits, gt_bits};

verus! {

/// Why a run configuration was rejected before the run started.
#[derive(Clone, Copy, Debug, PartialEq, Eq, Structural)]
pub enum ConfigError {
    /// The iteration count is zero.
    ZeroIterations,
    /// The batch size is zero.
    ZeroBatchSize,
    /// The solution dimension is zero.
    ZeroDimension,
    /// The grid has no cells along a side.
    ZeroCells,
    /// The upper measure bound is not strictly above the lower one
    /// (or a bound is a NaN pattern).
    EmptyMeasureRange,
    /// The noise scale is not at least zero (or is a NaN pattern).
    NegativeSigma,
}

/// A validated run configuration.  The four scalar fields hold the bit
/// patterns of the doubles they stand for; everything else is a plain
/// integer.  All fields are immutable for the run's lifetime.
#[derive(Clone, Copy, Debug, PartialEq, Eq, Structural)]
pub struct Config {
    /// Seed of the deterministic random stream.
    pub seed: u64,
    /// Number of loop iterations; positive.
    pub itrs: u32,
    /// Solutions evaluated per iteration; positive.
    pub batch_size: usize,
    /// Length of every solution vector; positive.
    pub dim: usize,
    /// Cells along each side of the square archive grid; positive.
    pub cells: usize,
    /// Pattern of the lower measure bound.
    pub grid_min: u64,
    /// Pattern of the upper measure bound; strictly above `grid_min`.
    pub grid_max: u64,
    /// Pattern of the additive bias used by cell indexing.
    pub epsilon: u64,
    /// Pattern of the noise standard deviation; at least zero.
    pub sigma: u64,
}

impl Config {
    /// The validation rule: every constraint a configuration must meet
    /// before a run may start.
    pub open spec fn spec_valid(
        itrs: u32,
        batch_size: usize,
        dim: usize,
        cells: usize,
        grid_min: u64,
        grid_max: u64,
        sigma: u64,
    ) -> bool {
        &&& itrs > 0
        &&& batch_size > 0
        &&& dim > 0
        &&& cells >= 1
        &&& f64_bits_gt(grid_max, grid_min)
        &&& f64_bits_ge(sigma, 0u64)
    }

    /// Validates a configuration.  Succeeds exactly on the inputs that
    /// meet every constraint, and otherwise reports the first violated
    /// one, checked in the order: iterations, batch size, dimension,
    /// cells, measure bounds, noise scale.
    pub fn new(
        seed: u64,
        itrs: u32,
        batch_size: usize,
        dim: usize,
        cells: usize,
        grid_min: u64,
        grid_max: u64,
        epsilon: u64,
        sigma: u64,
    ) -> (r: Result<Config, ConfigError>)
        ensures
            r is Ok <==> Self::spec_valid(itrs, batch_size, dim, cells, grid_min, grid_max, sigma),
            r is Ok ==> r->Ok_0 == (Config {
                seed,
                itrs,
                batch_size,
                dim,
                cells,
                grid_min,
                grid_max,
                epsilon,
                sigma,
            }),
            r == Err::<Config, ConfigError>(ConfigError::ZeroIterations) <==> itrs == 0,
            r == Err::<Config, ConfigError>(ConfigError::ZeroBatchSize) <==> itrs > 0 && batch_size == 0,
            r == Err::<Config, ConfigError>(ConfigError::ZeroDimension) <==> itrs > 0 && batch_size > 0 && dim == 0,
            r == Err::<Config, ConfigError>(ConfigError::ZeroCells) <==> itrs > 0 && batch_size > 0 && dim > 0 && cells == 0,
            r == Err::<Config, ConfigError>(ConfigError::EmptyMeasureRange) <==> itrs > 0 && batch_size > 0 && dim > 0 && cells >= 1 && !f64_bits_gt(grid_max, grid_min),
            r == Err::<Config, ConfigError>(ConfigError::NegativeSigma) <==> itrs > 0 && batch_size > 0 && dim > 0 && cells >= 1 && f64_bits_gt(grid_max, grid_min) && !f64_bits_ge(sigma, 0u64),
    {
        if itrs == 0 {
            Err(ConfigError::ZeroIterations)
        } else if batch_size == 0 {
            Err(ConfigError::ZeroBatchSize)
        } else if dim == 0 {
            Err(ConfigError::ZeroDimension)
        } else if cells == 0 {
            Err(ConfigError::ZeroCells)
        } else if !gt_bits(grid_max, grid_min) {
            Err(ConfigError::EmptyMeasureRange)
        } else if !ge_bits(sigma, 0u64) {
            Err(ConfigError::NegativeSigma)
        } else {
            Ok(Config { seed, itrs, batch_size, dim, cells, grid_min, grid_max, epsilon, sigma })
        }
    }
}

} // verus!
