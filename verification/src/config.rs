//! Configuration of a simulation run, and the errors a run can raise.

use vstd::prelude::*;
use crate::bits::is_pos_bits;
use crate::arith::{div_bits, trunc_bits, sqrt_bits, div_f64, trunc_f64};
use crate::bits::gt_zero;

verus! {

/// Why a run produced no result.
#[derive(Clone, Copy, Debug, PartialEq, Eq, Structural)]
pub enum SimulationError {
    /// The step size or the horizon is not strictly positive, or the number
    /// of paths is zero.  Raised before any simulation work begins.
    InvalidConfiguration,
    /// A finite random source ran out of draws mid-trial; no partial result
    /// is returned.
    RandomSourceExhausted,
}

/// Parameters of one simulation run.  The scalar fields hold the bit
/// patterns of IEEE-754 doubles; `drift` and `diffusion` are closures from
/// state and time bits to a result's bits.
pub struct SdeConfiguration<F, G> {
    /// Instantaneous drift `mu(state, time)`.
    pub drift: F,
    /// Instantaneous diffusion `sigma(state, time)`.
    pub diffusion: G,
    /// Deterministic starting state of every trial.
    pub initial_value: u64,
    /// Time increment `dt` of the uniform grid; must encode a double
    /// greater than zero.
    pub step_size: u64,
    /// Total simulated time; must encode a double greater than zero.
    pub horizon: u64,
    /// Number of independent trials; must be at least one.
    pub num_paths: usize,
}

/// The number of discrete steps: the double quotient `horizon / step_size`
/// truncated toward zero (`floor`, as both are positive).
pub open spec fn steps_of(horizon: u64, step_size: u64) -> u64 {
    trunc_bits(div_bits(horizon, step_size))
}

impl<F, G> SdeConfiguration<F, G> {
    /// Step size and horizon strictly positive, and at least one path.
    pub open spec fn is_valid(&self) -> bool {
        is_pos_bits(self.step_size) && is_pos_bits(self.horizon) && self.num_paths >= 1
    }

    /// The number of steps of each trial, as a mathematical integer.
    pub open spec fn n_steps_spec(&self) -> int {
        steps_of(self.horizon, self.step_size) as int
    }

    /// The scaling of each draw: the double square root of the step size.
    pub open spec fn sqdt_spec(&self) -> u64 {
        sqrt_bits(self.step_size)
    }

    /// How many draws a full run consumes: one per step of each trial.
    pub open spec fn needed_draws(&self) -> int {
        self.num_paths * self.n_steps_spec()
    }

    /// Decides whether the configuration is accepted: step size and horizon
    /// must encode doubles strictly greater than zero and at least one path
    /// must be requested.
    pub fn validate(&self) -> (ok: bool)
        ensures
            ok == self.is_valid(),
    {
        gt_zero(self.step_size) && gt_zero(self.horizon) && self.num_paths >= 1
    }
}

/// Computes the number of discrete steps, `floor(horizon / step_size)` in
/// double arithmetic.
pub fn num_steps(horizon: u64, step_size: u64) -> (n: u64)
    ensures
        n == steps_of(horizon, step_size),
{
    trunc_f64(div_f64(horizon, step_size))
}

} // verus!
