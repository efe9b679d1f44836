[package]
name = "abc"
version = "0.1.0"
edition = "2021"
publish = false

[dependencies]
rand = "*"
num_cpus = "*"
crossbeam = "*"
