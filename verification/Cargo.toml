[package]
name = "cargo_c"
version = "0.1.0"
edition = "2021"
publish = false

[dependencies]
itertools = "*"
semver = "*"
regex = "*"
pkg-config = "*"
