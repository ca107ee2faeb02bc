[package]
name = "netbench"
version = "0.1.0"
edition = "2021"
publish = false

[dependencies]
time = "*"
rand = "*"
parking_lot = "*"
tokio = { version = "*", features = ["rt-multi-thread", "net", "sync", "time", "macros", "io-util"] }
