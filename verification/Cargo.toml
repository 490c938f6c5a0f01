[package]
name = "l2companion"
version = "0.1.0"
edition = "2021"
publish = false

[dependencies]
blowfish = "0.9"
cipher = "0.4"
byteorder = "1"
bytes = "1"
serde = { version = "1", features = ["derive"] }
serde_json = "1"
tokio = { version = "1", features = ["full"] }
tokio-stream = { version = "0.1", features = ["sync"] }
clap = { version = "4", features = ["derive"] }
anyhow = "1"
thiserror = "2"
pcap = "2"
pcap-file = "2"
tracing = "0.1"
tracing-subscriber = "0.3"
axum = { version = "0.8", features = ["ws"] }
tower-http = { version = "0.6", features = ["cors"] }
futures-util = { version = "0.3", features = ["sink"] }
async-graphql = { version = "7", default-features = false }
