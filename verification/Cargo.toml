[package]
name = "thatsmatter-bridge"
version = "0.2.4"
edition = "2021"
publish = false

[dependencies]
anyhow = "1"
async-io = "2"
async-trait = "0.1"
axum = "0.8"
clap = { version = "4", features = ["derive", "env"] }
edge-nal = "*"
edge-nal-std = "*"
embassy-futures = "=0.1.1"
futures-lite = "2"
parking_lot = "0.12"
rand = "=0.8.8"
rs-matter = { version = "=0.1.0", default-features = false }
serde = { version = "1", features = ["derive"] }
serde_json = "1"
socket2 = "*"
thiserror = "*"
tokio = { version = "1", features = ["full"] }
tower-http = { version = "0.6", features = ["trace"] }
tracing = "0.1"
tracing-subscriber = { version = "0.3", features = ["env-filter"] }
uuid = { version = "=1.29.0", features = ["serde", "v4"] }
