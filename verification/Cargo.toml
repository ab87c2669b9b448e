[package]
name = "albums"
version = "0.1.0"
edition = "2021"
publish = false

[dependencies]
anyhow = "1"
axum = "0.8"
chrono = { version = "0.4", features = ["serde"] }
colored = "*"
kamadak-exif = "0.6"
imagesize = "*"
indicatif = "0.17"
log = "0.4"
mime_guess = "2"
mozjpeg = "*"
r2d2 = "0.8"
r2d2_sqlite = "*"
rusqlite = { version = "*", features = ["bundled"] }
serde = { version = "1", features = ["derive"] }
tokio = { version = "1", features = ["full"] }
tokio-util = { version = "0.7", features = ["io"] }
tower-http = { version = "0.6", features = ["fs", "compression-gzip", "compression-zstd"] }
walkdir = "2"
image = { version = "0.25", default-features = false, features = ["jpeg"] }
