[package]
name = "zbiorauth"
version = "0.1.0"
edition = "2021"
publish = false

[dependencies]
argon2 = { version = "0.5", features = ["std"] }
axum = "0.8"
base32 = "0.5"
base64 = "0.22"
chrono = { version = "0.4", default-features = false, features = ["clock"] }
rand = "0.8"
rusqlite = { version = "0.37", features = ["bundled"] }
serde = { version = "1", features = ["derive"] }
tokio = { version = "1", features = ["rt-multi-thread", "net", "macros"] }
uuid = { version = "1", features = ["v7"] }
