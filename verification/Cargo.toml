[package]
name = "plonk_xor"
version = "0.1.0"
edition = "2021"
publish = false

[dependencies]
bellman_ce = "=0.7.0"
hex = "=0.4.3"
log = "=0.4.34"
