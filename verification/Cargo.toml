[package]
name = "kenv_core"
version = "0.1.0"
edition = "2021"
publish = false

[dependencies]
aes-gcm = "0.10"
argon2 = "0.5"
hmac = "0.12"
sha2 = "0.10"
rand = "0.8"
serde = { version = "1", features = ["derive"] }
serde_json = "1"
thiserror = "1"
zeroize = "1"
parking_lot = "0.12"
dirs = "5"
clap = { version = "4", features = ["derive"] }
rpassword = "7"

[dev-dependencies]
tempfile = "3"
