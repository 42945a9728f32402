[package]
name = "filespider"
version = "0.1.0"
edition = "2021"
publish = false

[dependencies]
fxhash = "=0.2.1"
uuid = { version = "=1.29.0", features = ["v1", "rng"] }
tokio = { version = "=1.54.1", features = ["fs", "process", "rt-multi-thread", "sync", "time", "io-util", "macros"] }
tempfile = "=3.27.0"
eyre = "=0.6.14"
serde = { version = "=1.0.229", features = ["derive"] }
json5 = "=1.3.3"
sqlx = { version = "=0.9.0", default-features = false, features = ["sqlite", "runtime-tokio", "uuid"] }
base64 = "=0.22.1"
mac_address = "=1.2.1"
flate2 = "=1.1.10"
pdf = "=0.10.0"
