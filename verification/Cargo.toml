[package]
name = "cargo_skyline"
version = "0.1.0"
edition = "2021"
publish = false

[dependencies]
colored = "=2.2.0"
structopt = "=0.3.26"
toml = "0.5"
