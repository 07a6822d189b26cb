[package]
name = "geekmagic_stats"
version = "0.1.0"
edition = "2021"
publish = false

[dependencies]
ab_glyph = "*"
anyhow = "*"
chrono = "*"
clap = { version = "*", features = ["derive"] }
image = "*"
imageproc = "*"
reqwest = { version = "*", default-features = false, features = ["blocking", "multipart"] }
serde = { version = "*", features = ["derive"] }
serde_json = "*"
toml = "*"
