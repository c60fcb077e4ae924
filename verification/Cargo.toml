[package]
name = "riskytrees"
version = "0.1.0"
edition = "2021"
publish = false

[dependencies]
evalexpr = "11"
serde_json = "1"
