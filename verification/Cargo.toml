[package]
name = "resilum-core"
version = "0.1.0"
edition = "2021"
publish = false

[dependencies]
data-encoding = "=2.11.1"
iroh-base = { version = "=1.4.1", features = ["key"] }
serde = { version = "=1.0.229", features = ["derive"] }
serde_json = "=1.0.154"
rmp-serde = "=1.3.1"
tokio = { version = "=1.54.1", features = ["rt", "sync", "time", "macros", "net", "io-util"] }
tracing = "=0.1.44"
rand_core = { version = "=0.6.4", features = ["getrandom"] }
hickory-resolver = "=0.26.3"
n0-watcher = "=1.0.1"
noq-udp = "=1.4.0"
