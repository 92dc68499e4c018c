[package]
name = "probe_engine"
version = "0.1.0"
edition = "2021"
publish = false

[dependencies]
chrono = "*"
crossterm = "*"
futures = "*"
indicatif = "*"
reqwest = { version = "*", default-features = false }
tokio = { version = "*", features = ["full"] }
