[package]
name = "batrs"
version = "0.1.0"
edition = "2021"
publish = false

[dependencies]
unicode-segmentation = "=1.13.3"
unicode-width = "=0.2.3"
parse-ansi = "=0.1.6"
serde = { version = "=1.0.229", features = ["derive"] }
toml = "=1.1.8"
chrono = "=0.4.45"
log = "=0.4.35"
rusqlite = { version = "=0.41.1", features = ["bundled"] }
libmudtelnet = "=2.0.2"
regex = "=1.13.1"
axum = "0.8"
tokio = { version = "1", features = ["rt", "net"] }
