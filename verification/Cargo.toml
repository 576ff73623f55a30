[package]
name = "dbpoll"
version = "0.1.0"
edition = "2021"
publish = false

[dependencies]
chrono = "0.4"
chrono-tz = "*"
tokio = { version = "1", features = ["rt-multi-thread", "time", "macros", "signal"] }
