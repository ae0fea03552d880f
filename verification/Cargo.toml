[package]
name = "lld_rx"
version = "0.1.0"
edition = "2021"
publish = false

[dependencies]
cc = "1"
lazy_static = "1"
semver = "1"
