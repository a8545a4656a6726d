[package]
name = "sde_simulator"
version = "0.1.0"
edition = "2021"
publish = false

[dependencies]
rand = "=0.8.8"
rand_distr = "=0.4.3"
rustc_apfloat = "=0.2.3"
ieee-apsqrt = "=0.1.1"
