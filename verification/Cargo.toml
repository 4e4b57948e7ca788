[package]
name = "cql_gateway"
version = "0.1.0"
edition = "2021"
publish = false

[dependencies]
sha2 = "=0.11.0"
chrono = "=0.4.45"
indexmap = { version = "=2.14.2", features = ["serde"] }
serde = { version = "=1.0.229", features = ["derive"] }
serde_json = "=1.0.151"
tokio = { version = "=1.53.2", features = ["full"] }
tokio-tungstenite = "=0.30.0"
futures-util = "=0.3.34"
scylla = "=1.9.0"
rand = "=0.10.3"
lazy_static = "=1.5.1"
