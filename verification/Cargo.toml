[package]
name = "edge_proxy"
version = "0.1.0"
edition = "2021"
publish = false

[dependencies]
chrono = "0.4"
futures-util = "0.3"
redirectionio = "*"
serde_json = "1"
worker = "*"
