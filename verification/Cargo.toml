[package]
name = "bench_diff"
version = "0.1.0"
edition = "2021"
publish = false

[dependencies]
hdrhistogram = { version = "7.5", default-features = false }
sha2 = "0.10"
statrs = "0.18"
rand = "0.9"
rand_distr = "0.5"
