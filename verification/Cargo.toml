[package]
name = "subruster"
version = "2.0.0"
edition = "2021"
publish = false

[dependencies]
anyhow = "1"
clap = { version = "4", features = ["derive"] }
colored = "2"
futures = "0.3"
tokio = { version = "1", features = ["full"] }
trust-dns-resolver = "0.23"
