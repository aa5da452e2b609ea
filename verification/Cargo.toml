[package]
name = "hashbench"
version = "0.1.0"
edition = "2021"
publish = false

[dependencies]
anyhow = "1"
clap = { version = "4", features = ["derive"] }
ctrlc = "3"
fnv = "1"
monoio = "0.2"
rand = "0.8"
socket2 = { version = "0.5", features = ["all"] }
tikv-jemallocator = "*"
tokio = { version = "1", features = ["full"] }
tokio-util = "0.7"
tracing = "0.1"
tracing-subscriber = "0.3"
