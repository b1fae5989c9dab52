[package]
name = "swap_engine"
version = "0.1.0"
edition = "2021"
publish = false

[dependencies]
parity-scale-codec = "=3.7.5"
sp-io = "=49.0.0"
sp-core = "=43.0.0"
sp-runtime = "=49.0.0"
frame-support = "=49.0.0"
frame-system = "=49.0.0"
