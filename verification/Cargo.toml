[package]
name = "chronos"
version = "0.2.0"
edition = "2021"
publish = false

[dependencies]
chrono = "=0.4.45"
clap = { version = "=4.6.7", features = ["derive"] }
prost = "=0.11.9"
tokio = { version = "=1.54.1", features = ["rt-multi-thread", "time", "fs", "net"] }
tonic = { version = "=0.9.2", features = ["tls"] }
