[package]
name = "mc_integrate"
version = "0.1.0"
edition = "2021"
publish = false

[dependencies]
rand = "*"
plotters = "*"
