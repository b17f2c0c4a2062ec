[package]
name = "email_spoof_detector"
version = "0.1.0"
edition = "2021"
publish = false

[dependencies]
anyhow = "*"
clap = { version = "*", features = ["derive"] }
idna = "*"
mailparse = "*"
serde_json = "*"
tokio = { version = "*", features = ["rt-multi-thread"] }
trust-dns-resolver = "*"
