[package]
name = "resourcery"
version = "0.1.0"
edition = "2021"
publish = false

[dependencies]
dashmap = "6"
event-listener = "5"
parking_lot = "0.12"
thiserror = "2"
tokio = { version = "1", features = ["macros", "rt", "rt-multi-thread", "sync", "time"] }
tokio-util = "0.7"
