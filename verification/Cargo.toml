[package]
name = "batch_transfer"
version = "0.1.0"
edition = "2021"
publish = false

[dependencies]
rust-s3 = { version = "0.35", default-features = false, features = ["sync-rustls-tls"] }
serde = { version = "1", features = ["derive"] }
specta = { version = "=2.0.0-rc.22", features = ["derive"] }
specta-typescript = "=0.0.9"
