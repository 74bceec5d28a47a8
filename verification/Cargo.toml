[package]
name = "gemm_benchmark"
version = "0.1.0"
edition = "2021"
publish = false

[dependencies]
anyhow = "1"
ndarray = "*"
rayon = "1"
statrs = "*"
structopt = "0.3"
