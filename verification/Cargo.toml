[package]
name = "notabot"
version = "0.1.0"
edition = "2021"
publish = false

[dependencies]
anyhow = "1"
async-trait = "0.1"
base64 = "0.22"
chrono = { version = "0.4", features = ["serde"] }
flate2 = "1"
log = "0.4"
num_cpus = "1"
rand = "0.8"
regex = "1"
serde = { version = "1", features = ["derive"] }
serde_json = "1"
serde_yaml = "0.9"
tar = "0.4"
tokio = { version = "1", features = ["full"] }
toml = "0.8"
unicode-normalization = "0.1"
urlencoding = "2"
uuid = { version = "1", features = ["v4", "serde"] }
