[package]
name = "rustcm"
version = "0.1.3"
edition = "2021"
publish = false

[dependencies]
orion = "=0.17.15"
zeroize = "=1.9.1"
colored = "=2.2.0"
passterm = "=2.1.0"
