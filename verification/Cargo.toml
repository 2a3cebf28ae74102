[package]
name = "pgoutput_decoder"
version = "0.1.0"
edition = "2021"
publish = false

[dependencies]
hex = "*"
serde = "*"
serde_json = "*"
tokio = { version = "*", features = ["rt", "net", "time", "io-util", "sync", "macros"] }
