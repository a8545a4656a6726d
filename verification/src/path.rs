//! One simulation trial: the Euler–Maruyama recurrence.
//!
//! A trial starts from the initial state and applies one update per draw:
//! `X_j = X_{j-1} + mu(X_{j-1}, t_j) * dt + sigma(X_{j-1}, t_j) * dW_j`,
//! with `t_j = j * dt` and `dW_j = w_j * sqrt(dt)`, every operation an
//! IEEE-754 double operation on bit patterns.  The drift `mu` and the
//! diffusion `sigma` are caller-supplied closures on bit patterns.  When a
//! closure's contract pins its result to a known function, the whole path
//! is pinned to the spec-level recurrence `path_bits`; and when the
//! diffusion is pinned to zero, the path is pinned to the draw-free
//! deterministic Euler recurrence `det_path_bits`.

use vstd::prelude::*;
use crate::arith::{add_bits, mul_bits, add_f64, mul_f64, whole_f64, whole_bits};
use crate::bits::{NEG_ZERO_BITS, is_finite_bits, is_nan_bits};

verus! {

/// The time handed to drift and diffusion at step `j`: the double product
/// of `j` (rounded to a double) and the step size `dt`.
pub open spec fn time_bits(j: int, dt: u64) -> u64 {
    mul_bits(whole_bits(j as u64), dt)
}

/// One Euler–Maruyama update on bit patterns:
/// `x + mv * dt + sv * (w * sqdt)`, left to right.
pub open spec fn em_step_bits(x: u64, mv: u64, sv: u64, dt: u64, sqdt: u64, w: u64) -> u64 {
    add_bits(add_bits(x, mul_bits(mv, dt)), mul_bits(sv, mul_bits(w, sqdt)))
}

/// One deterministic Euler update on bit patterns: `x + mv * dt`.
pub open spec fn det_step_bits(x: u64, mv: u64, dt: u64) -> u64 {
    add_bits(x, mul_bits(mv, dt))
}

/// `f` accepts every pair of state and time bits.
pub open spec fn total_fn<F: Fn(u64, u64) -> u64>(f: F) -> bool {
    forall|x: u64, t: u64| #[trigger] call_requires(f, (x, t))
}

/// Every result `f` can return is the one `m` gives: `f` behaves as the
/// mathematical function `m` on bit patterns.
pub open spec fn returns_fn<F: Fn(u64, u64) -> u64>(f: F, m: spec_fn(u64, u64) -> u64) -> bool {
    forall|x: u64, t: u64, r: u64| #[trigger] call_ensures(f, (x, t), r) ==> r == m(x, t)
}

/// Every result `f` can return is the bit pattern of positive zero.
pub open spec fn zero_fn<F: Fn(u64, u64) -> u64>(f: F) -> bool {
    forall|x: u64, t: u64, r: u64| #[trigger] call_ensures(f, (x, t), r) ==> r == 0u64
}

/// State `next` can follow state `prev` at step `j`: some results `mv` of
/// the drift and `sv` of the diffusion at `(prev, t_j)` give
/// `next == prev + mv * dt + sv * (w * sqdt)`.
pub open spec fn step_related<F: Fn(u64, u64) -> u64, G: Fn(u64, u64) -> u64>(
    f: F,
    g: G,
    prev: u64,
    next: u64,
    j: int,
    dt: u64,
    sqdt: u64,
    w: u64,
) -> bool {
    exists|mv: u64, sv: u64|
        {
            &&& #[trigger] call_ensures(f, (prev, time_bits(j, dt)), mv)
            &&& #[trigger] call_ensures(g, (prev, time_bits(j, dt)), sv)
            &&& next == em_step_bits(prev, mv, sv, dt, sqdt, w)
        }
}

/// The full path of a trial with pinned drift `mu` and diffusion `sig`:
/// element 0 is `x0`, and element `j` follows from element `j - 1` by one
/// update under draw `ws[j - 1]`.
pub open spec fn path_bits(
    x0: u64,
    dt: u64,
    sqdt: u64,
    mu: spec_fn(u64, u64) -> u64,
    sig: spec_fn(u64, u64) -> u64,
    ws: Seq<u64>,
) -> Seq<u64>
    decreases ws.len(),
{
    if ws.len() == 0 {
        seq![x0]
    } else {
        let p = path_bits(x0, dt, sqdt, mu, sig, ws.drop_last());
        let x = p.last();
        let t = time_bits(ws.len() as int, dt);
        p.push(em_step_bits(x, mu(x, t), sig(x, t), dt, sqdt, ws.last()))
    }
}

/// The path of the deterministic Euler integration of `dX = mu(X, t) dt`
/// with pinned drift `mu` over `n` steps: no draw enters it.
pub open spec fn det_path_bits(x0: u64, dt: u64, mu: spec_fn(u64, u64) -> u64, n: nat) -> Seq<u64>
    decreases n,
{
    if n == 0 {
        seq![x0]
    } else {
        let p = det_path_bits(x0, dt, mu, (n - 1) as nat);
        let x = p.last();
        p.push(det_step_bits(x, mu(x, time_bits(n as int, dt)), dt))
    }
}

/// The deterministic Euler path keeps clear of the two kinds of state
/// whose sum with a zero noise term is not themselves: negative zero
/// (`-0.0 + +0.0` is `+0.0`) and NaN (an operation may change a NaN's
/// bits).  On such a path the noise term of a zero diffusion drops away
/// exactly.
pub open spec fn det_path_stable(x0: u64, dt: u64, mu: spec_fn(u64, u64) -> u64, n: nat) -> bool {
    forall|j: int|
        1 <= j <= n ==> ((#[trigger] det_path_bits(x0, dt, mu, n)[j]) != NEG_ZERO_BITS
            && !is_nan_bits(det_path_bits(x0, dt, mu, n)[j]))
}

/// A pinned path has one element per draw after the initial state, starts
/// at `x0`, and each element steps from the one before it.
pub proof fn lemma_path_bits_shape(
    x0: u64,
    dt: u64,
    sqdt: u64,
    mu: spec_fn(u64, u64) -> u64,
    sig: spec_fn(u64, u64) -> u64,
    ws: Seq<u64>,
)
    ensures
        path_bits(x0, dt, sqdt, mu, sig, ws).len() == ws.len() + 1,
        path_bits(x0, dt, sqdt, mu, sig, ws)[0] == x0,
    decreases ws.len(),
{
    if ws.len() > 0 {
        lemma_path_bits_shape(x0, dt, sqdt, mu, sig, ws.drop_last());
    }
}

/// A deterministic Euler path has `n + 1` elements and starts at `x0`.
pub proof fn lemma_det_path_bits_shape(x0: u64, dt: u64, mu: spec_fn(u64, u64) -> u64, n: nat)
    ensures
        det_path_bits(x0, dt, mu, n).len() == n + 1,
        det_path_bits(x0, dt, mu, n)[0] == x0,
    decreases n,
{
    if n > 0 {
        lemma_det_path_bits_shape(x0, dt, mu, (n - 1) as nat);
    }
}

/// A shorter deterministic Euler path is a prefix of a longer one: the
/// recurrence never rewrites what it has produced.
pub proof fn lemma_det_path_bits_prefix(x0: u64, dt: u64, mu: spec_fn(u64, u64) -> u64, m: nat, n: nat)
    requires
        m <= n,
    ensures
        det_path_bits(x0, dt, mu, m) == det_path_bits(x0, dt, mu, n).take((m + 1) as int),
    decreases n,
{
    lemma_det_path_bits_shape(x0, dt, mu, m);
    lemma_det_path_bits_shape(x0, dt, mu, n);
    if m == n {
        assert(det_path_bits(x0, dt, mu, m) =~= det_path_bits(x0, dt, mu, n).take((m + 1) as int));
    } else {
        lemma_det_path_bits_prefix(x0, dt, mu, m, (n - 1) as nat);
        lemma_det_path_bits_shape(x0, dt, mu, (n - 1) as nat);
        assert(det_path_bits(x0, dt, mu, (n - 1) as nat).take((m + 1) as int) =~= det_path_bits(
            x0,
            dt,
            mu,
            n,
        ).take((m + 1) as int));
    }
}

/// Runs one trial: starting at `x0`, applies one Euler–Maruyama update per
/// draw in `draws`, in order, and returns the `draws.len() + 1` states.
///
/// The third `ensures` clause ties every produced state to a result the
/// drift and diffusion closures can return; the fourth pins the whole path
/// whenever the closures' contracts pin them; the last states the
/// zero-diffusion reduction: a diffusion pinned to zero makes the path the
/// deterministic Euler path, into which no draw enters — provided each
/// scaled draw stays finite and no deterministic state is negative zero.
pub fn euler_path<F: Fn(u64, u64) -> u64, G: Fn(u64, u64) -> u64>(
    drift: &F,
    diffusion: &G,
    x0: u64,
    dt: u64,
    sqdt: u64,
    draws: &Vec<u64>,
) -> (path: Vec<u64>)
    requires
        total_fn(*drift),
        total_fn(*diffusion),
    ensures
        path@.len() == draws@.len() + 1,
        path@[0] == x0,
        forall|j: int|
            1 <= j <= draws@.len() ==> #[trigger] step_related(
                *drift,
                *diffusion,
                path@[j - 1],
                path@[j],
                j,
                dt,
                sqdt,
                draws@[j - 1],
            ),
        forall|mu: spec_fn(u64, u64) -> u64, sig: spec_fn(u64, u64) -> u64|
            returns_fn(*drift, mu) && returns_fn(*diffusion, sig) ==> path@ == #[trigger] path_bits(
                x0,
                dt,
                sqdt,
                mu,
                sig,
                draws@,
            ),
        forall|mu: spec_fn(u64, u64) -> u64|
            returns_fn(*drift, mu) && zero_fn(*diffusion) && (forall|k: int|
                0 <= k < draws@.len() ==> is_finite_bits(mul_bits(#[trigger] draws@[k], sqdt)))
                && det_path_stable(x0, dt, mu, draws@.len() as nat) ==> path@
                == #[trigger] det_path_bits(
                x0,
                dt,
                mu,
                draws@.len() as nat,
            ),
{
    let ghost ws = draws@;
    let n = draws.len();
    let mut path: Vec<u64> = Vec::new();
    path.push(x0);
    let mut x = x0;
    let mut k: usize = 0;
    while k < n
        invariant
            total_fn(*drift),
            total_fn(*diffusion),
            n == ws.len(),
            draws@ == ws,
            k <= n,
            path@.len() == k + 1,
            path@[0] == x0,
            x == path@[k as int],
            forall|j: int|
                1 <= j <= k ==> #[trigger] step_related(
                    *drift,
                    *diffusion,
                    path@[j - 1],
                    path@[j],
                    j,
                    dt,
                    sqdt,
                    ws[j - 1],
                ),
            forall|mu: spec_fn(u64, u64) -> u64, sig: spec_fn(u64, u64) -> u64|
                returns_fn(*drift, mu) && returns_fn(*diffusion, sig) ==> path@
                    == #[trigger] path_bits(x0, dt, sqdt, mu, sig, ws.take(k as int)),
            forall|mu: spec_fn(u64, u64) -> u64|
                returns_fn(*drift, mu) && zero_fn(*diffusion) && (forall|i: int|
                    0 <= i < ws.len() ==> is_finite_bits(mul_bits(#[trigger] ws[i], sqdt)))
                    && det_path_stable(x0, dt, mu, ws.len() as nat) ==> path@
                    == #[trigger] det_path_bits(x0, dt, mu, k as nat),
        decreases n - k,
    {
        let t = mul_f64(whole_f64((k as u64) + 1), dt);
        let mv = drift(x, t);
        let sv = diffusion(x, t);
        let z = mul_f64(draws[k], sqdt);
        let noise = mul_f64(sv, z);
        let y = add_f64(x, mul_f64(mv, dt));
        let xn = add_f64(y, noise);
        let ghost old_path = path@;
        path.push(xn);
        proof {
            assert(t == time_bits(k + 1, dt));
            assert(xn == em_step_bits(x, mv, sv, dt, sqdt, ws[k as int]));
            assert(step_related(*drift, *diffusion, x, xn, k + 1, dt, sqdt, ws[k as int]));
            assert forall|mu: spec_fn(u64, u64) -> u64, sig: spec_fn(u64, u64) -> u64|
                returns_fn(*drift, mu) && returns_fn(*diffusion, sig) implies path@
                == path_bits(x0, dt, sqdt, mu, sig, ws.take(k + 1)) by {
                assert(ws.take(k + 1).drop_last() =~= ws.take(k as int));
                assert(mv == mu(x, t));
                assert(sv == sig(x, t));
                lemma_path_bits_shape(x0, dt, sqdt, mu, sig, ws.take(k as int));
                assert(path@ =~= path_bits(x0, dt, sqdt, mu, sig, ws.take(k + 1)));
            }
            assert forall|mu: spec_fn(u64, u64) -> u64|
                returns_fn(*drift, mu) && zero_fn(*diffusion) && (forall|i: int|
                    0 <= i < ws.len() ==> is_finite_bits(mul_bits(#[trigger] ws[i], sqdt)))
                    && det_path_stable(x0, dt, mu, ws.len() as nat) implies path@
                == det_path_bits(x0, dt, mu, (k + 1) as nat) by {
                assert(sv == 0u64);
                assert(mv == mu(x, t));
                assert(is_finite_bits(mul_bits(ws[k as int], sqdt)));
                assert(noise == 0u64 || noise == NEG_ZERO_BITS);
                lemma_det_path_bits_shape(x0, dt, mu, k as nat);
                lemma_det_path_bits_shape(x0, dt, mu, (k + 1) as nat);
                lemma_det_path_bits_shape(x0, dt, mu, ws.len() as nat);
                lemma_det_path_bits_prefix(x0, dt, mu, (k + 1) as nat, ws.len() as nat);
                assert(det_path_bits(x0, dt, mu, (k + 1) as nat).last() == y);
                assert(det_path_bits(x0, dt, mu, ws.len() as nat)[k + 1] == y);
                assert(y != NEG_ZERO_BITS && !is_nan_bits(y));
                assert(xn == y);
                assert(path@ =~= det_path_bits(x0, dt, mu, (k + 1) as nat));
            }
        }
        x = xn;
        k = k + 1;
    }
    proof {
        assert(ws.take(n as int) =~= ws);
    }
    path
}

} // verus!
