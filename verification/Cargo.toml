[package]
name = "statecharts"
version = "0.1.0"
edition = "2021"
publish = false

[dependencies]
uuid = { version = "*", features = ["v4"] }
rusqlite = { version = "*", features = ["bundled"] }
r2d2 = "*"
r2d2_sqlite = "*"
tokio = { version = "*", features = ["macros", "rt-multi-thread", "net"] }
hyper = "*"
log = "*"
env_logger = "*"
thiserror = "*"
