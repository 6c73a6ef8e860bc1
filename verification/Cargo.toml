[package]
name = "netdox"
version = "0.1.0"
edition = "2021"
publish = false

[dependencies]
redis = { version = "=0.27.6", features = ["tokio-comp"] }
serde = { version = "=1.0.229", features = ["derive"] }
thiserror = "=1.0.69"
async-trait = "=0.1.92"
