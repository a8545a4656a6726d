//! Euler–Maruyama simulation of scalar stochastic differential equations.
//!
//! The simulator discretizes `dX = mu(X, t) dt + sigma(X, t) dW` on a
//! uniform grid and produces, for each trial, the sequence of states at the
//! grid points.  Every scalar is carried as the 64-bit pattern of an
//! IEEE-754 double; the arithmetic itself is performed by an outside
//! software implementation of that format behind named, trusted wrappers,
//! and everything around it — validation, step count, the recurrence, the
//! consumption of random draws — is verified against those names.

use vstd::prelude::*;

pub mod arith;
pub mod bits;
pub mod config;
pub mod path;
pub mod simulator;

