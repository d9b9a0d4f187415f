[package]
name = "easyquic"
version = "0.1.0"
edition = "2021"
publish = false

[dependencies]
bytes = "=1.12.1"
flume = "=0.11.1"
log = "0.4"
parking_lot = "=0.12.5"
quiche = { version = "0.23", default-features = false }
ring = "=0.17.14"
tokio = { version = "=1.54.1", features = ["sync", "time", "rt", "macros", "io-util"] }
tokio-util = "=0.7.20"
