[package]
name = "expander_precompile"
version = "0.1.0"
edition = "2021"
publish = false

[dependencies]
flate2 = "=1.1.10"

[dev-dependencies]
ethabi = "=18.0.0"
