[package]
name = "dedup"
version = "0.1.0"
edition = "2021"
publish = false

[dependencies]
blake3 = "*"
regex = "*"
tokio = { version = "*", features = ["full"] }
clap = { version = "*", features = ["derive"] }
anyhow = "*"
async-trait = "*"
