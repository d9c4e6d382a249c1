[package]
name = "asma"
version = "0.1.0"
edition = "2021"
publish = false

[dependencies]
regex = "=1.13.1"
rust-ini = "=0.21.3"
tokio = { version = "=1.54.1", features = ["net", "io-util", "rt", "rt-multi-thread", "macros", "time"] }
serde = { version = "=1.0.229", features = ["derive"] }
serde_json = "=1.0.154"
uuid = { version = "=1.29.0", features = ["v4", "serde"] }
anyhow = "=1.0.104"
sysinfo = "*"
reqwest = { version = "*", default-features = false, features = ["rustls-tls", "json"] }
zip = { version = "*", default-features = false, features = ["deflate"] }
curseforge = "*"
