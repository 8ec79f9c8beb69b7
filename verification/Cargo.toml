[package]
name = "rr_channel"
version = "0.1.0"
edition = "2021"
publish = false

[dependencies]
anyhow = "1"
bincode = "1"
crossbeam-channel = "0.5"
ipc-channel = "0.14"
lazy_static = "1"
ron = "0.6"
serde = { version = "1", features = ["derive"] }
serde_json = "1"
structopt = "0.3"
thiserror = "1"
tracing = "0.1"
