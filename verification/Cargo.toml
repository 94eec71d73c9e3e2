[package]
name = "hangman_plus"
version = "0.1.0"
edition = "2021"
publish = false

[dependencies]
argon2 = "=0.5.3"
hex = "=0.4.3"
rand = "=0.8.8"
sha2 = "=0.10.9"
uuid = { version = "=1.27.0", features = ["v4"] }
time = "=0.3.55"
serde = { version = "=1.0.229", features = ["derive"] }
sqlx = { version = "=0.8.6", default-features = false, features = ["runtime-tokio", "sqlite", "macros"] }
tokio = { version = "=1.53.2", features = ["rt", "macros"] }
