[package]
name = "idioms"
version = "0.1.0"
edition = "2021"
publish = false

[dependencies]
anymap = "=0.12.1"
axum = "0.6"
crossbeam = "=0.8.5"
cvt = "=0.1.2"
futures = "=0.3.34"
itertools = "=0.10.5"
libc = "=0.2.191"
pin-project = "=1.1.13"
serde = { version = "1", features = ["derive"] }
serde_json = "1"
tokio = { version = "=1.54.1", features = ["rt", "rt-multi-thread", "macros", "time", "sync", "io-util", "net"] }
