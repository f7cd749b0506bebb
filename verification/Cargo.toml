[package]
name = "cargo_foreach"
version = "0.1.0"
edition = "2021"
publish = false

[dependencies]
getopt = "*"
