[package]
name = "lazybar_core"
version = "0.1.0"
edition = "2021"
publish = false

[dependencies]
anyhow = "*"
config = "*"
csscolorparser = "*"
tokio = { version = "*", features = ["rt", "sync", "time", "macros", "io-util", "io-std"] }
tokio-stream = "*"
