[package]
name = "ferris_swarm"
version = "0.1.0"
edition = "2021"
publish = false

[dependencies]
anyhow = "1"
axum = { version = "0.7", features = ["ws"] }
chrono = "0.4"
clap = { version = "4", features = ["derive", "env"] }
futures = "0.3"
hex = "0.4"
hostname = "0.4"
if-addrs = "0.13"
mdns = "3"
num_cpus = "1"
prost = "0.13"
reqwest = { version = "0.12", default-features = false, features = ["json"] }
serde = { version = "1", features = ["derive"] }
serde_json = "1"
sha2 = "0.10"
thiserror = "1"
tokio = { version = "1", features = ["full"] }
toml = "0.8"
tonic = "0.12"
tower-http = { version = "0.5", features = ["cors", "fs"] }
tracing = "0.1"
uuid = { version = "1", features = ["v4"] }
which = "6"

[dev-dependencies]
tempfile = "3"
