[package]
name = "itazuraneko_backup"
version = "0.1.0"
edition = "2021"
publish = false

[dependencies]
anyhow = "1"
clap = "2"
csv = "1"
html-escape = "*"
indicatif = { version = "*", features = ["rayon"] }
rayon = "1"
scraper = "*"
serde = { version = "1", features = ["derive"] }

[dev-dependencies]
regex = "1"
