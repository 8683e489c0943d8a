[package]
name = "rn_lang"
version = "0.1.0"
edition = "2021"
publish = false

[dependencies]
smallvec = "1"
anyhow = "1"
clap = { version = "3", features = ["derive"] }
serde = { version = "1", features = ["derive"] }
serde_json = "1"
