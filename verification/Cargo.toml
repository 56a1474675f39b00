[package]
name = "blake2b_halo2"
version = "0.1.0"
edition = "2021"
publish = false

[dependencies]
ff = "=0.13.1"
hex = "=0.4.3"
midnight-curves = "0.2"
midnight-proofs = "=0.7.0"
num-bigint = "=0.4.8"
rand = "=0.8.8"
