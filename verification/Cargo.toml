[package]
name = "common"
version = "0.1.0"
edition = "2021"
publish = false

[dependencies]
anyhow = "*"
csv = "*"
encoding_rs = "*"
flashlog = "*"
mongodb = "*"
pcap = "*"
pnet = "*"
serde = { version = "*", features = ["derive"] }
serde_json = "*"
