[package]
name = "pool_orderbook"
version = "0.1.0"
edition = "2021"
publish = false

[dependencies]
rand = "*"
serde = { version = "*", features = ["derive"] }
serde_json = "*"
tokio = { version = "*", features = ["sync", "time", "rt-multi-thread", "macros"] }
tokio-tungstenite = "*"
futures = "*"
reqwest = { version = "*", default-features = false, features = ["json"] }
log = "*"
simple_logger = "*"
