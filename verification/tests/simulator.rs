use sde_simulator::config::{SdeConfiguration, SimulationError, num_steps};
use sde_simulator::simulator::{simulate, simulate_replay, RandomSource, ReplaySource};

fn b(x: f64) -> u64 {
    x.to_bits()
}

#[test]
fn scenario_fixed_point_drift() {
    // drift 1 - x, diffusion 0.5 x, X0 = 1.0: with every draw 0.0 the state
    // sits on the fixed point; 100 steps, 101 values, all exactly 1.0.
    let config = SdeConfiguration {
        drift: |x: u64, _t: u64| (1.0 - f64::from_bits(x)).to_bits(),
        diffusion: |x: u64, _t: u64| (0.5 * f64::from_bits(x)).to_bits(),
        initial_value: b(1.0),
        step_size: b(0.01),
        horizon: b(1.0),
        num_paths: 1,
    };
    let draws = vec![b(0.0); 100];
    let paths = simulate_replay(&config, &draws).unwrap();
    assert_eq!(paths.len(), 1);
    assert_eq!(paths[0].len(), 101);
    for &v in &paths[0] {
        assert_eq!(v, b(1.0));
    }
}

#[test]
fn scenario_random_walk() {
    // drift 0, diffusion 1, dt = 1.0 so sqrt(dt) = 1.0: a pure random walk
    // over the fixed draw sequence [1.0, -1.0, 2.0].
    let config = SdeConfiguration {
        drift: |_x: u64, _t: u64| b(0.0),
        diffusion: |_x: u64, _t: u64| b(1.0),
        initial_value: b(0.0),
        step_size: b(1.0),
        horizon: b(3.0),
        num_paths: 1,
    };
    let draws = vec![b(1.0), b(-1.0), b(2.0)];
    let paths = simulate_replay(&config, &draws).unwrap();
    assert_eq!(paths.len(), 1);
    let want: Vec<u64> = vec![b(0.0), b(1.0), b(0.0), b(2.0)];
    assert_eq!(paths[0], want);
}

#[test]
fn scenario_zero_paths() {
    let config = SdeConfiguration {
        drift: |_x: u64, _t: u64| b(0.0),
        diffusion: |_x: u64, _t: u64| b(1.0),
        initial_value: b(0.0),
        step_size: b(1.0),
        horizon: b(3.0),
        num_paths: 0,
    };
    let draws = vec![b(0.0); 8];
    assert_eq!(
        simulate_replay(&config, &draws),
        Err(SimulationError::InvalidConfiguration)
    );
}

#[test]
fn invalid_zero_step_size() {
    let config = SdeConfiguration {
        drift: |_x: u64, _t: u64| b(0.0),
        diffusion: |_x: u64, _t: u64| b(1.0),
        initial_value: b(0.0),
        step_size: b(0.0),
        horizon: b(3.0),
        num_paths: 1,
    };
    let draws = vec![b(0.0); 8];
    assert_eq!(
        simulate_replay(&config, &draws),
        Err(SimulationError::InvalidConfiguration)
    );
}

#[test]
fn invalid_zero_horizon() {
    let config = SdeConfiguration {
        drift: |_x: u64, _t: u64| b(0.0),
        diffusion: |_x: u64, _t: u64| b(1.0),
        initial_value: b(0.0),
        step_size: b(1.0),
        horizon: b(0.0),
        num_paths: 1,
    };
    let draws = vec![b(0.0); 8];
    assert_eq!(
        simulate_replay(&config, &draws),
        Err(SimulationError::InvalidConfiguration)
    );
}

#[test]
fn invalid_negative_step_size() {
    let config = SdeConfiguration {
        drift: |_x: u64, _t: u64| b(0.0),
        diffusion: |_x: u64, _t: u64| b(1.0),
        initial_value: b(0.0),
        step_size: b(-0.5),
        horizon: b(3.0),
        num_paths: 1,
    };
    let draws = vec![b(0.0); 8];
    assert_eq!(
        simulate_replay(&config, &draws),
        Err(SimulationError::InvalidConfiguration)
    );
}

#[test]
fn invalid_nan_step_size() {
    let config = SdeConfiguration {
        drift: |_x: u64, _t: u64| b(0.0),
        diffusion: |_x: u64, _t: u64| b(1.0),
        initial_value: b(0.0),
        step_size: b(f64::NAN),
        horizon: b(3.0),
        num_paths: 1,
    };
    let draws = vec![b(0.0); 8];
    assert_eq!(
        simulate_replay(&config, &draws),
        Err(SimulationError::InvalidConfiguration)
    );
}

#[test]
fn result_shape() {
    // floor(1.0 / 0.4) in double arithmetic, as the reference hardware
    // computes it, decides the number of steps; three trials.
    let n = (1.0f64 / 0.4) as usize;
    let config = SdeConfiguration {
        drift: |_x: u64, _t: u64| b(0.25),
        diffusion: |_x: u64, _t: u64| b(1.0),
        initial_value: b(0.0),
        step_size: b(0.4),
        horizon: b(1.0),
        num_paths: 3,
    };
    let draws = vec![b(0.5); 3 * n];
    let paths = simulate_replay(&config, &draws).unwrap();
    assert_eq!(paths.len(), 3);
    for p in &paths {
        assert_eq!(p.len(), n + 1);
    }
}

#[test]
fn initial_condition() {
    let config = SdeConfiguration {
        drift: |x: u64, _t: u64| x,
        diffusion: |_x: u64, _t: u64| b(1.0),
        initial_value: b(2.5),
        step_size: b(0.5),
        horizon: b(2.0),
        num_paths: 4,
    };
    let draws = vec![b(1.5); 16];
    let paths = simulate_replay(&config, &draws).unwrap();
    assert_eq!(paths.len(), 4);
    for p in &paths {
        assert_eq!(p[0], b(2.5));
    }
}

#[test]
fn determinism_two_runs() {
    let make_config = || SdeConfiguration {
        drift: |x: u64, _t: u64| (1.0 - f64::from_bits(x)).to_bits(),
        diffusion: |x: u64, _t: u64| (0.5 * f64::from_bits(x)).to_bits(),
        initial_value: b(1.0),
        step_size: b(0.25),
        horizon: b(2.0),
        num_paths: 2,
    };
    let draws = vec![
        b(0.3),
        b(-1.7),
        b(2.5),
        b(-0.2),
        b(0.9),
        b(1.1),
        b(-0.4),
        b(0.0),
        b(3.0),
        b(-2.0),
        b(0.6),
        b(0.1),
        b(-0.9),
        b(1.9),
        b(0.2),
        b(-1.1),
    ];
    let first = simulate_replay(&make_config(), &draws).unwrap();
    let second = simulate_replay(&make_config(), &draws).unwrap();
    assert_eq!(first, second);
    let mut source_a = ReplaySource::new(draws.clone());
    let mut source_b = ReplaySource::new(draws.clone());
    let third = simulate(&make_config(), &mut source_a).unwrap();
    let fourth = simulate(&make_config(), &mut source_b).unwrap();
    assert_eq!(third, fourth);
    assert_eq!(first, third);
}

#[test]
fn zero_diffusion_reduces_to_deterministic_euler() {
    // With diffusion pinned to zero, the draws do not influence the result:
    // two very different draw sequences give the same paths, and the values
    // match the deterministic Euler integration of dX = (1 - X) dt.
    let make_config = || SdeConfiguration {
        drift: |x: u64, _t: u64| (1.0 - f64::from_bits(x)).to_bits(),
        diffusion: |_x: u64, _t: u64| b(0.0),
        initial_value: b(0.5),
        step_size: b(0.125),
        horizon: b(1.0),
        num_paths: 2,
    };
    let loud = vec![
        b(0.7),
        b(-1.3),
        b(2.2),
        b(-0.8),
        b(1.6),
        b(0.4),
        b(-2.5),
        b(0.9),
        b(1.2),
        b(-0.1),
        b(0.3),
        b(2.8),
        b(-1.9),
        b(0.5),
        b(1.0),
        b(-0.6),
    ];
    let quiet = vec![b(0.0); 16];
    let with_noise = simulate_replay(&make_config(), &loud).unwrap();
    let without_noise = simulate_replay(&make_config(), &quiet).unwrap();
    assert_eq!(with_noise, without_noise);
    let mut x = 0.5f64;
    let mut want = vec![x.to_bits()];
    for _ in 0..8 {
        x = x + (1.0 - x) * 0.125;
        want.push(x.to_bits());
    }
    assert_eq!(with_noise[0], want);
    assert_eq!(with_noise[1], want);
}

#[test]
fn exhausted_source_replay() {
    // Two trials of four steps need eight draws; seven are not enough.
    let config = SdeConfiguration {
        drift: |_x: u64, _t: u64| b(0.0),
        diffusion: |_x: u64, _t: u64| b(1.0),
        initial_value: b(0.0),
        step_size: b(0.5),
        horizon: b(2.0),
        num_paths: 2,
    };
    let draws = vec![b(1.0); 7];
    assert_eq!(
        simulate_replay(&config, &draws),
        Err(SimulationError::RandomSourceExhausted)
    );
}

#[test]
fn exhausted_source_trait() {
    let config = SdeConfiguration {
        drift: |_x: u64, _t: u64| b(0.0),
        diffusion: |_x: u64, _t: u64| b(1.0),
        initial_value: b(0.0),
        step_size: b(0.5),
        horizon: b(2.0),
        num_paths: 2,
    };
    let mut source = ReplaySource::new(vec![b(1.0); 7]);
    assert_eq!(
        simulate(&config, &mut source),
        Err(SimulationError::RandomSourceExhausted)
    );
}

#[test]
fn single_element_path() {
    // A step size above the horizon gives zero steps: each path is just the
    // initial value and no draw is consumed.
    let config = SdeConfiguration {
        drift: |_x: u64, _t: u64| b(1.0),
        diffusion: |_x: u64, _t: u64| b(1.0),
        initial_value: b(7.25),
        step_size: b(2.0),
        horizon: b(1.0),
        num_paths: 2,
    };
    let draws: Vec<u64> = vec![];
    let paths = simulate_replay(&config, &draws).unwrap();
    assert_eq!(paths.len(), 2);
    for p in &paths {
        assert_eq!(p, &vec![b(7.25)]);
    }
}

#[test]
fn brownian_scaling_uses_square_root_of_step() {
    // dt = 4.0 scales each draw by 2.0: a unit diffusion walks by +-2.
    let config = SdeConfiguration {
        drift: |_x: u64, _t: u64| b(0.0),
        diffusion: |_x: u64, _t: u64| b(1.0),
        initial_value: b(0.0),
        step_size: b(4.0),
        horizon: b(8.0),
        num_paths: 1,
    };
    let draws = vec![b(1.0), b(-1.0)];
    let paths = simulate_replay(&config, &draws).unwrap();
    let want: Vec<u64> = vec![b(0.0), b(2.0), b(0.0)];
    assert_eq!(paths[0], want);
}

#[test]
fn time_argument_is_the_new_time() {
    // Drift equal to the time argument exposes the convention: at step j
    // the closures see t_j = j * dt, not (j - 1) * dt.  With dt = 0.5 the
    // exact path is [0, 0.25, 0.75, 1.5].
    let config = SdeConfiguration {
        drift: |_x: u64, t: u64| t,
        diffusion: |_x: u64, _t: u64| b(0.0),
        initial_value: b(0.0),
        step_size: b(0.5),
        horizon: b(1.5),
        num_paths: 1,
    };
    let draws = vec![b(0.0); 3];
    let paths = simulate_replay(&config, &draws).unwrap();
    let want: Vec<u64> = vec![b(0.0), b(0.25), b(0.75), b(1.5)];
    assert_eq!(paths[0], want);
}

#[test]
fn num_steps_matches_native_division() {
    assert_eq!(num_steps(b(1.0), b(0.01)), (1.0f64 / 0.01) as u64);
    assert_eq!(num_steps(b(0.3), b(0.1)), (0.3f64 / 0.1) as u64);
    assert_eq!(num_steps(b(1.0), b(0.4)), (1.0f64 / 0.4) as u64);
    assert_eq!(num_steps(b(1.0), b(2.0)), 0);
}

#[test]
fn validate_reports_the_configuration() {
    let good = SdeConfiguration {
        drift: |_x: u64, _t: u64| b(0.0),
        diffusion: |_x: u64, _t: u64| b(1.0),
        initial_value: b(0.0),
        step_size: b(0.5),
        horizon: b(2.0),
        num_paths: 1,
    };
    assert!(good.validate());
    let bad = SdeConfiguration {
        num_paths: 0,
        ..good
    };
    assert!(!bad.validate());
}

#[test]
fn replay_source_hands_out_in_order_then_exhausts() {
    let mut source = ReplaySource::new(vec![b(0.25), b(-1.0)]);
    assert_eq!(source.next_standard_normal(), Some(b(0.25)));
    assert_eq!(source.next_standard_normal(), Some(b(-1.0)));
    assert_eq!(source.next_standard_normal(), None);
    assert_eq!(source.next_standard_normal(), None);
}

#[test]
fn single_element_path_through_source() {
    // Zero steps take no draw: even an empty source yields a result.
    let config = SdeConfiguration {
        drift: |_x: u64, _t: u64| b(1.0),
        diffusion: |_x: u64, _t: u64| b(1.0),
        initial_value: b(7.25),
        step_size: b(2.0),
        horizon: b(1.0),
        num_paths: 2,
    };
    let mut source = ReplaySource::new(vec![]);
    let paths = simulate(&config, &mut source).unwrap();
    assert_eq!(paths.len(), 2);
    for p in &paths {
        assert_eq!(p, &vec![b(7.25)]);
    }
}
