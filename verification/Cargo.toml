[package]
name = "no-more-termius"
version = "0.1.0"
edition = "2021"
publish = false

[dependencies]
anyhow = "1"
dirs = "5"
fuzzy-matcher = "0.3"
image = { version = "0.25", default-features = false, features = ["png"] }
ratatui = "0.29"
serde = { version = "1", features = ["derive"] }
ssh2 = "0.9"
toml = "0.8"
