[package]
name = "icap_respmod"
version = "0.1.0"
edition = "2021"
publish = false

[dependencies]
anyhow = "*"
bytes = "*"
h2 = "*"
http = "*"
num-traits = "*"
tokio = { version = "*", features = ["full"] }
tokio-rustls = "*"
