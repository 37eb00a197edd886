[package]
name = "ssc"
version = "0.1.0"
edition = "2021"
publish = false

[dependencies]
serde = { version = "1", features = ["derive"] }
serde_json = "1"
tokio = { version = "1", features = ["full"] }
thiserror = "1"
anyhow = "1"
clap = { version = "4", features = ["cargo"] }
log = "0.4"
zeroconf = "*"
mdns-sd = "*"
flume = "*"
