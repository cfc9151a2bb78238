[package]
name = "solyn"
version = "0.1.0"
edition = "2021"
publish = false

[dependencies]
regex = "1"
urlencoding = "2"
serde = { version = "1", features = ["derive"] }
serde_json = "1"
tokio = { version = "1", features = ["rt-multi-thread", "macros", "fs", "process", "sync", "time"] }
tokio-stream = "0.1"
reqwest = { version = "0.12", default-features = false, features = ["json", "stream", "rustls-tls"] }
rusqlite = { version = "*", features = ["bundled"] }
chrono = "0.4"
log = "0.4"
once_cell = "1"
sysinfo = "*"
num_cpus = "1"
