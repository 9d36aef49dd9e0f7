[package]
name = "vibe_review"
version = "0.1.0"
edition = "2021"
publish = false

[dependencies]
globset = "*"
ignore = "*"
clap = { version = "*", features = ["derive"] }
reqwest = { version = "*", default-features = false, features = ["blocking", "json", "rustls-tls"] }
serde = { version = "*", features = ["derive"] }
thiserror = "*"
