[package]
name = "tee_worker"
version = "0.1.0"
edition = "2021"
publish = false

[dependencies]
sharks = "0.5"
hex = "0.4"
base58 = "0.2"
