[package]
name = "virust"
version = "0.4.0"
edition = "2021"
publish = false

[dependencies]
serde = { version = "1", features = ["derive"] }
serde_json = "1"
uuid = { version = "1", features = ["v4"] }
num_cpus = "1"
chrono = "0.4"
tokio = { version = "1", features = ["full"] }
clap = { version = "4", features = ["derive"] }
walkdir = "2"
notify = "6"
thiserror = "1"
anyhow = "1"
async-trait = "0.1"
lazy_static = "1"
rand = "0.8"
