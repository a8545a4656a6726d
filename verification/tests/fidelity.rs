//! The library must reproduce, bit for bit, the double-precision scheme:
//! these tests recompute each expected path with native hardware doubles
//! and compare raw bit patterns.

use sde_simulator::config::SdeConfiguration;
use sde_simulator::path::euler_path;
use sde_simulator::simulator::simulate_replay;

fn b(x: f64) -> u64 {
    x.to_bits()
}

/// Reference scheme on native doubles: one trial.
fn reference_path(
    drift: impl Fn(f64, f64) -> f64,
    diffusion: impl Fn(f64, f64) -> f64,
    x0: f64,
    dt: f64,
    draws: &[f64],
) -> Vec<u64> {
    let mut path = vec![x0.to_bits()];
    let mut x = x0;
    for (k, &w) in draws.iter().enumerate() {
        let t = (k + 1) as f64 * dt;
        let dw = w * dt.sqrt();
        x = x + drift(x, t) * dt + diffusion(x, t) * dw;
        path.push(x.to_bits());
    }
    path
}

#[test]
fn trial_matches_native_doubles() {
    let samples = [0.3, -1.7, 2.5, -0.2, 0.9];
    let draws: Vec<u64> = samples.iter().map(|&w| b(w)).collect();
    let sqdt = 0.01f64.sqrt().to_bits();
    let got = euler_path(
        &|x: u64, _t: u64| (1.0 - f64::from_bits(x)).to_bits(),
        &|x: u64, _t: u64| (0.5 * f64::from_bits(x)).to_bits(),
        b(1.25),
        b(0.01),
        sqdt,
        &draws,
    );
    let want = reference_path(|x, _| 1.0 - x, |x, _| 0.5 * x, 1.25, 0.01, &samples);
    assert_eq!(got, want);
}

#[test]
fn run_matches_native_doubles() {
    // Time-dependent coefficients over an inexact grid: every double
    // operation — division for the step count, square root for the draw
    // scaling, the products and sums of each update — must agree with the
    // hardware result exactly.
    let samples = [
        0.3, -1.7, 2.5, -0.2, 0.9, 1.1, -0.4, 0.0, 3.0, -2.0,
    ];
    let n = (0.05f64 / 0.01) as usize;
    assert_eq!(n, 5);
    let draws: Vec<u64> = samples.iter().map(|&w| b(w)).collect();
    let config = SdeConfiguration {
        drift: |x: u64, t: u64| {
            (1.0 - f64::from_bits(x) * f64::from_bits(t)).to_bits()
        },
        diffusion: |x: u64, t: u64| {
            (0.5 * f64::from_bits(x) + f64::from_bits(t)).to_bits()
        },
        initial_value: b(0.75),
        step_size: b(0.01),
        horizon: b(0.05),
        num_paths: 2,
    };
    let paths = simulate_replay(&config, &draws).unwrap();
    assert_eq!(paths.len(), 2);
    for (i, p) in paths.iter().enumerate() {
        let trial = &samples[i * n..(i + 1) * n];
        let want = reference_path(
            |x, t| 1.0 - x * t,
            |x, t| 0.5 * x + t,
            0.75,
            0.01,
            trial,
        );
        assert_eq!(p, &want);
    }
}
