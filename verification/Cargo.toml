[package]
name = "rustogrammer"
version = "0.1.0"
edition = "2021"
publish = false

[dependencies]
glob = "0.3"
libm = "0.2"
clap = { version = "4", features = ["derive"] }
portman_client = "*"
scan_fmt = "0.2"
ndhistogram = "0.9"
serde = { version = "1", features = ["derive"] }
