//! The path simulator: independent trials driven by a random source.
//!
//! Trials run in order and each consumes one draw per step, so trial 0's
//! draws precede trial 1's in the source.  `simulate_replay` takes the
//! draws as an explicit sequence and carries an exact contract over it;
//! `simulate` takes any `RandomSource` and relates its result to the draws
//! the source handed out.

use vstd::prelude::*;
use vstd::arithmetic::mul::lemma_mul_inequality;
use crate::arith::{mul_bits, sqrt_f64};
use crate::bits::is_finite_bits;
use crate::config::{SdeConfiguration, SimulationError, steps_of, num_steps};
use crate::path::{
    det_path_bits, det_path_stable, euler_path, path_bits, returns_fn, step_related, total_fn,
    zero_fn,
};

verus! {

/// The draws trial `i` consumes out of a flat sequence when every trial
/// consumes `n` of them: the `i`-th block of `n`.
pub open spec fn trial_draws(ws: Seq<u64>, n: int, i: int) -> Seq<u64> {
    ws.subrange(i * n, (i + 1) * n)
}

/// A source of independent standard-normal draws, each returned as the bit
/// pattern of a double.  A finite source answers `None` once exhausted; a
/// seeded source makes a run reproducible.
pub trait RandomSource {
    /// The next draw, or `None` if the source has run out.
    fn next_standard_normal(&mut self) -> (r: Option<u64>);
}

/// A finite, replayable source: hands out a fixed sequence of draws in
/// order, then reports exhaustion.
pub struct ReplaySource {
    /// The draws to hand out, as bit patterns of doubles.
    pub draws: Vec<u64>,
    /// How many have been handed out already.
    pub handed: usize,
}

impl ReplaySource {
    /// A source that will hand out exactly `draws`, in order.
    pub fn new(draws: Vec<u64>) -> (s: Self)
        ensures
            s.draws == draws,
            s.handed == 0,
    {
        ReplaySource { draws, handed: 0 }
    }
}

impl RandomSource for ReplaySource {
    /// Hands out the next unseen draw of the fixed sequence, or `None`
    /// once all have been handed out; the sequence itself never changes.
    fn next_standard_normal(&mut self) -> (r: Option<u64>)
        ensures
            old(self).handed < old(self).draws@.len() ==> r == Some(
                old(self).draws@[old(self).handed as int],
            ) && final(self).handed == old(self).handed + 1 && final(self).draws == old(
                self,
            ).draws,
            old(self).handed >= old(self).draws@.len() ==> r is None && final(self).handed == old(
                self,
            ).handed && final(self).draws == old(self).draws,
    {
        if self.handed < self.draws.len() {
            let w = self.draws[self.handed];
            self.handed = self.handed + 1;
            Some(w)
        } else {
            None
        }
    }
}

/// Runs `config.num_paths` independent trials, drawing from the flat
/// sequence `draws`: trial `i` consumes the `i`-th block of
/// `floor(horizon / step_size)` draws.
///
/// An invalid configuration is rejected before any work; a draw sequence
/// too short for the full run is rejected with `RandomSourceExhausted` and
/// no partial result.  On success the result holds one path per trial; the
/// clauses under `Ok` state the shape of every path, tie every state to
/// the closures' contracts, pin the whole result once the closures are
/// pinned, and state the zero-diffusion reduction to the deterministic
/// Euler path.
pub fn simulate_replay<F: Fn(u64, u64) -> u64, G: Fn(u64, u64) -> u64>(
    config: &SdeConfiguration<F, G>,
    draws: &Vec<u64>,
) -> (r: Result<Vec<Vec<u64>>, SimulationError>)
    requires
        total_fn(config.drift),
        total_fn(config.diffusion),
    ensures
        (r matches Err(e) && e == SimulationError::InvalidConfiguration) <==> !config.is_valid(),
        (r matches Err(e) && e == SimulationError::RandomSourceExhausted) <==> (config.is_valid()
            && draws@.len() < config.needed_draws()),
        r is Ok <==> (config.is_valid() && draws@.len() >= config.needed_draws()),
        r matches Ok(paths) ==> {
            &&& paths@.len() == config.num_paths
            &&& forall|i: int|
                0 <= i < config.num_paths ==> (#[trigger] paths@[i])@.len() == config.n_steps_spec()
                    + 1
            &&& forall|i: int|
                0 <= i < config.num_paths ==> (#[trigger] paths@[i])@[0] == config.initial_value
            &&& forall|i: int, j: int|
                0 <= i < config.num_paths && 1 <= j <= config.n_steps_spec() ==> step_related(
                    config.drift,
                    config.diffusion,
                    paths@[i]@[j - 1],
                    #[trigger] paths@[i]@[j],
                    j,
                    config.step_size,
                    config.sqdt_spec(),
                    draws@[i * config.n_steps_spec() + j - 1],
                )
            &&& forall|mu: spec_fn(u64, u64) -> u64, sig: spec_fn(u64, u64) -> u64, i: int|
                returns_fn(config.drift, mu) && returns_fn(config.diffusion, sig) && 0 <= i
                    < config.num_paths ==> paths@[i]@ == #[trigger] path_bits(
                    config.initial_value,
                    config.step_size,
                    config.sqdt_spec(),
                    mu,
                    sig,
                    trial_draws(draws@, config.n_steps_spec(), i),
                )
            &&& forall|mu: spec_fn(u64, u64) -> u64, i: int|
                returns_fn(config.drift, mu) && zero_fn(config.diffusion) && (forall|k: int|
                    0 <= k < config.needed_draws() ==> is_finite_bits(
                        mul_bits(#[trigger] draws@[k], config.sqdt_spec()),
                    )) && det_path_stable(
                    config.initial_value,
                    config.step_size,
                    mu,
                    config.n_steps_spec() as nat,
                ) && 0 <= i < config.num_paths ==> (#[trigger] paths@[i])@
                    == #[trigger] det_path_bits(
                    config.initial_value,
                    config.step_size,
                    mu,
                    config.n_steps_spec() as nat,
                )
        },
{
    let ghost ws = draws@;
    if !config.validate() {
        return Err(SimulationError::InvalidConfiguration);
    }
    let n64 = num_steps(config.horizon, config.step_size);
    let sqdt = sqrt_f64(config.step_size);
    let ghost n_spec = config.n_steps_spec();
    let mut paths: Vec<Vec<u64>> = Vec::new();
    let mut pos: usize = 0;
    let mut i: usize = 0;
    while i < config.num_paths
        invariant
            total_fn(config.drift),
            total_fn(config.diffusion),
            config.is_valid(),
            n64 == steps_of(config.horizon, config.step_size),
            n_spec == config.n_steps_spec(),
            sqdt == config.sqdt_spec(),
            ws == draws@,
            i <= config.num_paths,
            pos == i * n_spec,
            pos <= draws@.len(),
            paths@.len() == i,
            forall|t: int|
                0 <= t < i ==> (#[trigger] paths@[t])@.len() == n_spec + 1,
            forall|t: int|
                0 <= t < i ==> (#[trigger] paths@[t])@[0] == config.initial_value,
            forall|t: int, j: int|
                0 <= t < i && 1 <= j <= n_spec ==> step_related(
                    config.drift,
                    config.diffusion,
                    paths@[t]@[j - 1],
                    #[trigger] paths@[t]@[j],
                    j,
                    config.step_size,
                    config.sqdt_spec(),
                    ws[t * n_spec + j - 1],
                ),
            forall|mu: spec_fn(u64, u64) -> u64, sig: spec_fn(u64, u64) -> u64, t: int|
                returns_fn(config.drift, mu) && returns_fn(config.diffusion, sig) && 0 <= t < i
                    ==> paths@[t]@ == #[trigger] path_bits(
                    config.initial_value,
                    config.step_size,
                    config.sqdt_spec(),
                    mu,
                    sig,
                    trial_draws(ws, n_spec, t),
                ),
            forall|mu: spec_fn(u64, u64) -> u64, t: int|
                returns_fn(config.drift, mu) && zero_fn(config.diffusion) && (forall|k: int|
                    0 <= k < config.needed_draws() ==> is_finite_bits(
                        mul_bits(#[trigger] ws[k], config.sqdt_spec()),
                    )) && det_path_stable(
                    config.initial_value,
                    config.step_size,
                    mu,
                    n_spec as nat,
                ) && 0 <= t < i ==> (#[trigger] paths@[t])@
                    == #[trigger] det_path_bits(
                    config.initial_value,
                    config.step_size,
                    mu,
                    n_spec as nat,
                ),
        decreases config.num_paths - i,
    {
        let remaining = draws.len() - pos;
        if (remaining as u64) < n64 {
            proof {
                lemma_mul_inequality(i + 1, config.num_paths as int, n_spec);
                assert((i + 1) * n_spec == i * n_spec + n_spec) by (nonlinear_arith);
            }
            return Err(SimulationError::RandomSourceExhausted);
        }
        let n = n64 as usize;
        let mut chunk: Vec<u64> = Vec::new();
        let mut k: usize = 0;
        while k < n
            invariant
                n == n64,
                pos + n <= draws@.len(),
                draws@.len() <= usize::MAX,
                k <= n,
                ws == draws@,
                chunk@.len() == k,
                forall|q: int| 0 <= q < k ==> #[trigger] chunk@[q] == ws[pos + q],
            decreases n - k,
        {
            chunk.push(draws[pos + k]);
            k = k + 1;
        }
        proof {
            assert(chunk@ =~= trial_draws(ws, n_spec, i as int)) by {
                assert((i + 1) * n_spec == i * n_spec + n_spec) by (nonlinear_arith);
            }
        }
        let p = euler_path(
            &config.drift,
            &config.diffusion,
            config.initial_value,
            config.step_size,
            sqdt,
            &chunk,
        );
        paths.push(p);
        proof {
            assert((i + 1) * n_spec == i * n_spec + n_spec) by (nonlinear_arith);
            let t = i as int;
            assert(paths@[t] == p);
            assert forall|j: int| 1 <= j <= n_spec implies step_related(
                config.drift,
                config.diffusion,
                paths@[t]@[j - 1],
                #[trigger] paths@[t]@[j],
                j,
                config.step_size,
                config.sqdt_spec(),
                ws[t * n_spec + j - 1],
            ) by {
                assert(chunk@[j - 1] == ws[t * n_spec + j - 1]);
                assert(step_related(
                    config.drift,
                    config.diffusion,
                    p@[j - 1],
                    p@[j],
                    j,
                    config.step_size,
                    config.sqdt_spec(),
                    chunk@[j - 1],
                ));
            }
            assert forall|mu: spec_fn(u64, u64) -> u64|
                returns_fn(config.drift, mu) && zero_fn(config.diffusion) && (forall|kk: int|
                    0 <= kk < config.needed_draws() ==> is_finite_bits(
                        mul_bits(#[trigger] ws[kk], config.sqdt_spec()),
                    )) && det_path_stable(
                    config.initial_value,
                    config.step_size,
                    mu,
                    n_spec as nat,
                ) implies p@ == det_path_bits(
                config.initial_value,
                config.step_size,
                mu,
                n_spec as nat,
            ) by {
                assert forall|kk: int| 0 <= kk < chunk@.len() implies is_finite_bits(
                    mul_bits(#[trigger] chunk@[kk], sqdt),
                ) by {
                    lemma_mul_inequality(i + 1, config.num_paths as int, n_spec);
                    assert(chunk@[kk] == ws[t * n_spec + kk]);
                    assert(0 <= t * n_spec + kk < config.needed_draws());
                }
                assert(chunk@.len() as nat == n_spec as nat);
            }
        }
        pos = pos + n;
        i = i + 1;
    }
    proof {
        assert(pos == config.num_paths * n_spec);
    }
    Ok(paths)
}

/// Runs `config.num_paths` independent trials, drawing from `source` one
/// draw per step, trials in order.
///
/// An invalid configuration is rejected before any draw is taken; if the
/// source runs out mid-trial the run aborts with `RandomSourceExhausted`
/// and no partial result.  On success there is one path per trial, and
/// some sequence of draw blocks — the ones the source handed out — ties
/// every path to the recurrence exactly as in `simulate_replay`.
pub fn simulate<F: Fn(u64, u64) -> u64, G: Fn(u64, u64) -> u64, S: RandomSource>(
    config: &SdeConfiguration<F, G>,
    source: &mut S,
) -> (r: Result<Vec<Vec<u64>>, SimulationError>)
    requires
        total_fn(config.drift),
        total_fn(config.diffusion),
    ensures
        (r matches Err(e) && e == SimulationError::InvalidConfiguration) <==> !config.is_valid(),
        (r matches Err(e) && e == SimulationError::RandomSourceExhausted) ==> config.is_valid(),
        config.is_valid() && config.n_steps_spec() == 0 ==> r is Ok,
        r matches Ok(paths) ==> {
            &&& config.is_valid()
            &&& paths@.len() == config.num_paths
            &&& forall|i: int|
                0 <= i < config.num_paths ==> (#[trigger] paths@[i])@.len() == config.n_steps_spec()
                    + 1
            &&& forall|i: int|
                0 <= i < config.num_paths ==> (#[trigger] paths@[i])@[0] == config.initial_value
            &&& exists|dss: Seq<Seq<u64>>|
                {
                    &&& #[trigger] dss.len() == config.num_paths
                    &&& forall|i: int|
                        0 <= i < config.num_paths ==> (#[trigger] dss[i]).len()
                            == config.n_steps_spec()
                    &&& forall|i: int, j: int|
                        0 <= i < config.num_paths && 1 <= j <= config.n_steps_spec()
                            ==> step_related(
                            config.drift,
                            config.diffusion,
                            paths@[i]@[j - 1],
                            #[trigger] paths@[i]@[j],
                            j,
                            config.step_size,
                            config.sqdt_spec(),
                            dss[i][j - 1],
                        )
                    &&& forall|mu: spec_fn(u64, u64) -> u64, sig: spec_fn(u64, u64) -> u64, i: int|
                        returns_fn(config.drift, mu) && returns_fn(config.diffusion, sig) && 0 <= i
                            < config.num_paths ==> paths@[i]@ == #[trigger] path_bits(
                            config.initial_value,
                            config.step_size,
                            config.sqdt_spec(),
                            mu,
                            sig,
                            dss[i],
                        )
                }
        },
{
    if !config.validate() {
        return Err(SimulationError::InvalidConfiguration);
    }
    let n64 = num_steps(config.horizon, config.step_size);
    let sqdt = sqrt_f64(config.step_size);
    let ghost n_spec = config.n_steps_spec();
    let mut paths: Vec<Vec<u64>> = Vec::new();
    let ghost mut dss: Seq<Seq<u64>> = Seq::empty();
    let mut i: usize = 0;
    while i < config.num_paths
        invariant
            total_fn(config.drift),
            total_fn(config.diffusion),
            config.is_valid(),
            n64 == steps_of(config.horizon, config.step_size),
            n_spec == config.n_steps_spec(),
            sqdt == config.sqdt_spec(),
            i <= config.num_paths,
            paths@.len() == i,
            dss.len() == i,
            forall|t: int| 0 <= t < i ==> (#[trigger] dss[t]).len() == n_spec,
            forall|t: int|
                0 <= t < i ==> (#[trigger] paths@[t])@.len() == n_spec + 1,
            forall|t: int|
                0 <= t < i ==> (#[trigger] paths@[t])@[0] == config.initial_value,
            forall|t: int, j: int|
                0 <= t < i && 1 <= j <= n_spec ==> step_related(
                    config.drift,
                    config.diffusion,
                    paths@[t]@[j - 1],
                    #[trigger] paths@[t]@[j],
                    j,
                    config.step_size,
                    config.sqdt_spec(),
                    dss[t][j - 1],
                ),
            forall|mu: spec_fn(u64, u64) -> u64, sig: spec_fn(u64, u64) -> u64, t: int|
                returns_fn(config.drift, mu) && returns_fn(config.diffusion, sig) && 0 <= t < i
                    ==> paths@[t]@ == #[trigger] path_bits(
                    config.initial_value,
                    config.step_size,
                    config.sqdt_spec(),
                    mu,
                    sig,
                    dss[t],
                ),
        decreases config.num_paths - i,
    {
        let mut chunk: Vec<u64> = Vec::new();
        let mut k: u64 = 0;
        while k < n64
            invariant
                config.is_valid(),
                n64 == steps_of(config.horizon, config.step_size),
                n_spec == config.n_steps_spec(),
                k <= n64,
                chunk@.len() == k,
            decreases n64 - k,
        {
            match source.next_standard_normal() {
                Some(w) => chunk.push(w),
                None => {
                    return Err(SimulationError::RandomSourceExhausted);
                },
            }
            k = k + 1;
        }
        let p = euler_path(
            &config.drift,
            &config.diffusion,
            config.initial_value,
            config.step_size,
            sqdt,
            &chunk,
        );
        paths.push(p);
        proof {
            dss = dss.push(chunk@);
        }
        i = i + 1;
    }
    Ok(paths)
}

/// Determinism: a fixed configuration and a fixed draw sequence give one
/// result.  Two path collections that both follow the pinned recurrence on
/// the same initial value, grid, closures and draws are equal, element for
/// element.
pub proof fn lemma_simulation_deterministic(
    x0: u64,
    dt: u64,
    sqdt: u64,
    mu: spec_fn(u64, u64) -> u64,
    sig: spec_fn(u64, u64) -> u64,
    n: int,
    m: int,
    ws: Seq<u64>,
    r1: Seq<Seq<u64>>,
    r2: Seq<Seq<u64>>,
)
    requires
        r1.len() == m,
        r2.len() == m,
        forall|i: int|
            0 <= i < m ==> #[trigger] r1[i] == path_bits(x0, dt, sqdt, mu, sig, trial_draws(ws, n, i)),
        forall|i: int|
            0 <= i < m ==> #[trigger] r2[i] == path_bits(x0, dt, sqdt, mu, sig, trial_draws(ws, n, i)),
    ensures
        r1 == r2,
{
    assert(r1 =~= r2);
}

} // verus!
