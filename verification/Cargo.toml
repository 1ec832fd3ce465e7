[package]
name = "tordex"
version = "0.1.0"
edition = "2021"
publish = false

[dependencies]
serde = { version = "=1.0.229", features = ["derive"] }
serde_json = "=1.0.154"
scraper = "=0.20.0"
pulldown-cmark = { version = "=0.12.2", default-features = false }
url = "=2.5.8"
time = { version = "=0.3.55", features = ["parsing", "formatting"] }
