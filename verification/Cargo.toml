[package]
name = "factorio_rcon"
version = "0.1.0"
edition = "2021"
publish = false

[dependencies]
thiserror = "2"
tokio = { version = "1", features = ["net", "io-util", "time", "rt", "macros"] }
tracing = "0.1"
