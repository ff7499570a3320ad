[package]
name = "drfish"
version = "0.1.0"
edition = "2021"
publish = false

[dependencies]
chrono = "0.4"
indexmap = "2"
termion = "*"
tokio = { version = "1", features = ["sync", "rt", "rt-multi-thread", "macros", "time", "io-util", "signal"] }
tokio-serial = { version = "5.4", default-features = false }
tokio-util = "0.7"
