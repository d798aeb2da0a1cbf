[package]
name = "clickhouse_pool"
version = "0.1.0"
edition = "2021"
publish = false

[dependencies]
crossbeam = "0.8"
url = "2"
futures-util = "0.3"
log = "0.4"
tokio = { version = "1", features = ["time"] }
