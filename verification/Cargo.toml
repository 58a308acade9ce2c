[package]
name = "slp_outcome"
version = "0.1.0"
edition = "2021"
publish = false

[dependencies]
anyhow = "=1.0.104"
peppi = "=2.1.2"
serde_json = "=1.0.154"
