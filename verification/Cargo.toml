[package]
name = "shuttle-tokio"
version = "0.1.0"
edition = "2021"
publish = false

[dependencies]
shuttle = "=0.9.9"
futures = "=0.3.34"
rand = "=0.8.8"
tokio = { version = "=1.54.1", features = ["macros", "rt", "sync", "time", "net", "io-util"] }
