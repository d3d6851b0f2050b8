[package]
name = "web_static_pack"
version = "0.1.0"
edition = "2021"
publish = false

[dependencies]
anyhow = "1"
brotli = "*"
clap = { version = "4", features = ["derive"] }
flate2 = "1"
http = "1"
http-body = "1"
mime_guess = "2"
sha3 = "0.10"
walkdir = "2"
