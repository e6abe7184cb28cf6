[package]
name = "subnet_scan"
version = "0.1.0"
edition = "2021"
publish = false

[dependencies]
ipnet = "2"
rand = "0.8"
tokio = { version = "1", features = ["rt-multi-thread", "macros", "net", "io-util", "time", "sync"] }
colored = "2"
