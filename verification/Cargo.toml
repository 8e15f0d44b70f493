[package]
name = "bazed"
version = "0.1.0"
edition = "2021"
publish = false

[dependencies]
uuid = { version = "1", features = ["v4"] }
dashmap = "5"
serde = { version = "1", features = ["derive"] }
serde_json = "1"
semver = { version = "1", features = ["serde"] }
futures = "0.3"
tokio = { version = "1", features = ["rt"] }
async-trait = "0.1"
dyn-clone = "1"
thiserror = "1"
tracing = "0.1"
