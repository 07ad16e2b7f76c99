[package]
name = "canopus"
version = "0.1.0"
edition = "2021"
publish = false

[dependencies]
dashmap = "=6.2.1"
serde = { version = "=1.0.229", features = ["derive"] }
serde_json = "=1.0.154"
toml = "=0.8.23"
tokio = { version = "=1.54.1", features = ["rt-multi-thread", "macros", "sync", "time", "net", "process", "io-util"] }
humantime = "=2.4.0"
async-trait = "=0.1.92"
libc = "=0.2.191"
dirs-next = "2"
