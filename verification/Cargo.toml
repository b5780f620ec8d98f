[package]
name = "lightignore"
version = "0.1.0"
edition = "2021"
publish = false

[dependencies]
anyhow = "*"
clap = { version = "*", features = ["derive"] }
crossterm = "=0.29.0"
dirs = "*"
flate2 = "*"
futures = "*"
once_cell = "*"
reqwest = { version = "*", default-features = false, features = ["json", "rustls-tls"] }
self-replace = "*"
self_update = "=1.3.0"
serde = { version = "*", features = ["derive"] }
serde_json = "*"
tar = "*"
tempfile = "*"
tokio = { version = "*", features = ["rt-multi-thread"] }
xz2 = "*"
zip = { version = "*", default-features = false, features = ["deflate"] }
