[package]
name = "cyclone_msm"
version = "0.1.0"
edition = "2021"
publish = false

[dependencies]
ark-bls12-377 = "0.4"
ark-ec = "0.4"
ark-ff = "0.4"
ark-std = "0.4"
argh = "*"
rand = "0.8"
rand_core = "0.6"

[dev-dependencies]
