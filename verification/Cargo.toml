[package]
name = "ypf_ruta"
version = "0.1.0"
edition = "2021"
publish = false

[dependencies]
tokio = { version = "1", features = ["rt-multi-thread", "macros", "net", "io-util", "io-std", "sync", "time"] }
clap = { version = "4", features = ["derive"] }
rand = "0.8"
