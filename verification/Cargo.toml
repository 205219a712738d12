[package]
name = "zeco"
version = "0.1.0"
edition = "2021"
publish = false

[dependencies]
anyhow = "1"
bincode = "1"
clap = { version = "4", features = ["derive"] }
iroh = "*"
rand = "0.8"
tokio = { version = "1", features = ["fs", "io-util", "net", "rt-multi-thread", "macros"] }
