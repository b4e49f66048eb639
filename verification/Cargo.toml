[package]
name = "ns3_parallel"
version = "0.2.0"
edition = "2021"
publish = false

[dependencies]
futures = "0.3"
num_cpus = "1"
pbr = "1"
ron = "0.8"
serde = { version = "1", features = ["derive"] }
serde_json = "1"
serde_yaml = "0.9"
tokio = { version = "1", features = ["process", "rt"] }
toml = "0.5"
