[package]
name = "sayonara_core"
version = "0.1.0"
edition = "2021"
publish = false

[dependencies]
sha2 = "0.10"
regex = "1"
anyhow = "1"
chrono = { version = "0.4", features = ["serde"] }
serde = { version = "1", features = ["derive"] }
serde_json = "1"
uuid = { version = "1", features = ["v4"] }
lazy_static = "1.4"
libc = "0.2"
num_cpus = "1"
rand = "0.8"
ring = "0.17"
