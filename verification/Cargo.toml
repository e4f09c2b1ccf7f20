[package]
name = "contui"
version = "0.1.0"
edition = "2021"
publish = false

[dependencies]
anyhow = "1"
chrono = { version = "0.4", features = ["serde"] }
crossterm = "0.28"
dirs = "5"
dotenv = "0.15"
once_cell = "1"
parking_lot = "0.12"
pulldown-cmark = "0.12"
ratatui = "0.29"
regex = "1"
reqwest = { version = "0.12", default-features = false, features = ["json", "rustls-tls"] }
serde = { version = "1", features = ["derive"] }
serde_json = "1"
tokio = { version = "1", features = ["full"] }
unicode-segmentation = "1"
unicode-width = "0.2"
uuid = { version = "1", features = ["v4", "serde"] }
