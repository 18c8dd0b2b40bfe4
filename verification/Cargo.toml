[package]
name = "fileshare"
version = "0.1.0"
edition = "2021"
publish = false

[dependencies]
tokio = { version = "=1.53.2", features = ["rt-multi-thread", "macros", "fs", "sync", "time", "net", "io-util"] }
warp = "=0.3.7"
tokio-util = { version = "=0.7.19", features = ["io"] }
bytes = "=1.12.1"
futures = "=0.3.34"
zip = { version = "=8.6.0", default-features = false, features = ["deflate"] }
walkdir = "=2.5.0"
tera = { version = "=1.20.1", default-features = false }
serde = { version = "=1.0.229", features = ["derive"] }
