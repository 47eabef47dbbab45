[package]
name = "xddmod"
version = "0.1.0"
edition = "2021"
publish = false

[dependencies]
anyhow = "*"
chrono = "*"
chrono-tz = "*"
minijinja = "*"
regex = "*"
reqwest = { version = "*", default-features = false, features = ["json", "rustls-tls"] }
serde = { version = "*", features = ["derive"] }
serde_json = "*"
sqlx = { version = "*", features = ["runtime-tokio", "sqlite", "chrono"] }
timeago = "*"
tokio = { version = "*", features = ["rt-multi-thread", "macros", "sync"] }
twitch-irc = "*"
twitch_api = { version = "*", features = ["helix", "reqwest"] }
unicode-segmentation = "*"
