[package]
name = "snarkos_storage"
version = "0.1.0"
edition = "2021"
publish = false

[dependencies]
arc-swap = "=1.9.3"
snarkvm-algorithms = "=0.7.9"
snarkvm-dpc = "=0.7.9"
snarkvm-parameters = "=0.7.9"
snarkvm-utilities = "=0.7.9"
