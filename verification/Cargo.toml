[package]
name = "worker_pool"
version = "0.1.0"
edition = "2021"
publish = false

[dependencies]
crossbeam-queue = "*"
crossbeam-utils = "*"
num_cpus = "*"
parking_lot = "*"
