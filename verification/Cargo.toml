[package]
name = "rustdoc_text"
version = "0.1.0"
edition = "2021"
publish = false

[dependencies]
scraper = "*"
anyhow = "*"
clap = { version = "*", features = ["derive"] }
dirs = "*"
reqwest = { version = "*", default-features = false, features = ["blocking", "rustls-tls"] }
tempfile = "*"
