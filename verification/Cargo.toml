[package]
name = "clippy_lints"
version = "0.1.0"
edition = "2021"
publish = false

[dependencies]
getopts = "=0.2.24"
rustc-serialize = "=0.3.25"
semver = "=0.2.3"
