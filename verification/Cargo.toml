[package]
name = "rook"
version = "0.1.0"
edition = "2021"
publish = false

[dependencies]
uuid = { version = "1", features = ["v4", "v7"] }
serde = { version = "1", features = ["derive"] }
serde_json = "1"
thiserror = "1"
anyhow = "1"
clap = { version = "4", features = ["derive"] }
chrono = { version = "0.4", features = ["serde"] }
quick-xml = "0.31"
walkdir = "2"
which = "6"
dirs = "5"
libc = "0.2"
tracing = "0.1"
tracing-subscriber = "0.3"
parking_lot = "0.12"
crossbeam-channel = "0.5"
image = { version = "0.25", default-features = false, features = ["png"] }
