[package]
name = "payments_engine"
version = "0.1.0"
edition = "2021"
publish = false

[dependencies]
async-std = { version = "1", features = ["attributes"] }
csv = "1"
log = "0.4"
serde = { version = "1", features = ["derive"] }
thiserror = "1"
