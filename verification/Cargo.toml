[package]
name = "decision_broker"
version = "0.1.0"
edition = "2021"
publish = false

[dependencies]
async-trait = "=0.1.92"
chrono = "=0.4.45"
futures = "=0.3.34"
redis = { version = "=1.7.1", features = ["tokio-comp", "connection-manager"] }
serde = { version = "=1.0.229", features = ["derive"] }
serde_json = "=1.0.151"
thiserror = "=2.0.21"
tokio = { version = "=1.53.2", features = ["rt", "macros", "sync", "time", "process", "fs"] }
uuid = { version = "=1.27.0", features = ["v4"] }
