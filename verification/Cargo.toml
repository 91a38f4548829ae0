[package]
name = "particle_swarm"
version = "0.1.0"
edition = "2021"
publish = false

[dependencies]
anyhow = "1"
ndarray = "0.13"
ndarray-rand = "0.11"
plotters = "0.2"
rand = "0.7"
