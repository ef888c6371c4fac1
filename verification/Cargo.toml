[package]
name = "arp_skeleton"
version = "0.1.0"
edition = "2021"
publish = false

[dependencies]
hyper = "0.14"
reqwest = { version = "0.11", default-features = false, features = ["blocking", "json"] }
serde = { version = "1", features = ["derive"] }
serde_json = "1"
serde_urlencoded = "0.7"
