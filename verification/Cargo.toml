[package]
name = "murrelet"
version = "0.1.0"
edition = "2021"
publish = false

[dependencies]
serde = { version = "=1.0.229", features = ["derive"] }
serde_yaml = "=0.9.34+deprecated"
clap = { version = "=4.6.7", features = ["derive"] }
evalexpr = "=11.3.1"
rand = "0.8"
noise = "0.9"
