[package]
name = "backend"
version = "0.1.0"
edition = "2021"
publish = false

[dependencies]
sha3 = "0.10"
rand = "0.8"
regex = "1"
svg = "*"
rocket = { version = "0.5", features = ["json"] }
serde = { version = "1", features = ["derive"] }
serde_json = "1"
rusqlite = { version = "*", features = ["bundled"] }
medallion = "*"
chrono = "0.4"
anyhow = "1"
image = { version = "*", default-features = false, features = ["png", "jpeg"] }
tokio = { version = "1", features = ["fs", "io-util", "rt-multi-thread"] }
ringbuf = "0.2"
crossbeam = "0.8"
lazy_static = "1"
log = "0.4"
simplelog = "*"
dotenv = "0.15"
