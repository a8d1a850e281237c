[package]
name = "jas"
version = "0.1.0"
edition = "2021"
publish = false

[dependencies]
hex = "=0.4.3"
chrono = { version = "=0.4.45", default-features = false, features = ["alloc"] }
idevice = { version = "=0.1.68", default-features = false, features = ["remote_pairing", "ring"] }
mdns-sd = "=0.13.11"
serde = { version = "=1.0.229", features = ["derive"] }
toml = { version = "=1.1.8", default-features = false, features = ["std", "serde", "parse"] }
tracing = "=0.1.44"
tokio = { version = "=1.54.1", features = ["rt"] }
sqlx = { version = "=0.8.6", default-features = false, features = ["sqlite", "runtime-tokio"] }
rootcause = "=0.12.1"
isideload = { version = "=0.5.2", default-features = false, features = ["install", "tokio-mt"] }
web-sys = { version = "=0.3.107", features = ["Window"] }
