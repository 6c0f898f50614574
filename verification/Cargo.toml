[package]
name = "watch_watch"
version = "0.1.0"
edition = "2021"
publish = false

[dependencies]
anyhow = "*"
axum = "*"
base64 = "*"
bpfx = "*"
chrono = "*"
clap = { version = "*", features = ["derive"] }
directories = "*"
ed25519-dalek = "*"
futures = "*"
hex = "*"
nanoid = "*"
rand = "*"
rdkafka = "*"
rusqlite = { version = "*", features = ["bundled", "chrono"] }
serde = { version = "*", features = ["derive"] }
serde_json = "*"
sha2 = "*"
thiserror = "*"
tokio = { version = "*", features = ["full"] }
toml = "*"
uuid = { version = "*", features = ["v4"] }
