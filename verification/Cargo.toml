[package]
name = "sav1n"
version = "0.1.0"
edition = "2021"
publish = false

[dependencies]
regex = "1"
tokio = { version = "1", features = ["full"] }
clap = "3.2"
glob = "0.3"
serde_json = "1"
jemallocator = "0.5"
