[package]
name = "spwnmsg_core"
version = "0.1.0"
edition = "2021"
publish = false

[dependencies]
chrono = { version = "0.4", default-features = false, features = ["clock"] }
lazy_static = "1"
parking_lot = "0.12"
tokio = { version = "1", features = ["net", "sync"] }
