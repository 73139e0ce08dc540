[package]
name = "spb_web_server"
version = "0.1.0"
edition = "2021"
publish = false

[dependencies]
publicsuffix = { version = "1", default-features = false }
crossbeam-channel = "0.5"
serde = { version = "1", features = ["derive"] }
serde_json = "1"
