[package]
name = "crabby"
version = "0.1.0"
edition = "2021"
publish = false

[dependencies]
csv = "=1.4.0"
clap = { version = "=4.6.7", features = ["derive"] }
futures = "=0.3.34"
octocrab = "=0.44.1"
tokio = { version = "=1.53.2", features = ["full"] }
chrono = "=0.4.45"
