[package]
name = "neuronika"
version = "0.1.0"
edition = "2021"
publish = false

[dependencies]
ndarray = "0.15"
blas-src = "*"
