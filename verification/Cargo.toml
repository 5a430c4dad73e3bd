[package]
name = "commit_audit"
version = "0.1.0"
edition = "2021"
publish = false

[dependencies]
anyhow = "=1.0.104"
charming = { version = "=0.6.0", features = ["ssr-raster"] }
chrono = "=0.4.45"
clap = { version = "=4.6.7", features = ["derive"] }
git2 = { version = "0.20", default-features = false }
