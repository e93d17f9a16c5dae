[package]
name = "greptime_row_encoder"
version = "0.1.0"
edition = "2021"
publish = false

[dependencies]
greptimedb-ingester = "=0.16.0"
greptime-proto = "=0.1.0"
rustler = "=0.36.2"
tokio = { version = "=1.54.1", features = ["rt-multi-thread", "sync"] }
futures = "=0.3.34"
lazy_static = "=1.5.1"
