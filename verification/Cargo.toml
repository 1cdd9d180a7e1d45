[package]
name = "rust_atomics"
version = "0.1.0"
edition = "2021"
publish = false

[dependencies]
crossbeam-channel = "=0.5.17"
dashmap = "=6.2.1"
libc = "=0.2.191"
parking_lot = "=0.12.5"

[dev-dependencies]
crossbeam-utils = "=0.8.23"
