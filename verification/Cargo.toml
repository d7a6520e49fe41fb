[package]
name = "securecart"
version = "0.1.0"
edition = "2021"
publish = false

[dependencies]
argon2 = { version = "*", features = ["std"] }
base32 = "*"
hex = "*"
sha2 = "*"
time = "*"
axum = "*"
axum-extra = { version = "*", features = ["cookie"] }
serde = { version = "*", features = ["derive"] }
tokio = { version = "*", features = ["rt-multi-thread", "macros", "net"] }
