[package]
name = "twopass"
version = "0.1.0"
edition = "2021"
publish = false

[dependencies]
aes-gcm = "=0.10.3"
argon2 = "=0.5.3"
base64 = "=0.22.1"
chrono = "=0.4.45"
csv = "=1.4.0"
data-encoding = "=2.11.1"
hmac = "=0.12.1"
kdbx-rs = "=0.5.2"
rand = "=0.8.8"
reqwest = { version = "=0.13.5", default-features = false }
serde = { version = "=1.0.229", features = ["derive"] }
serde_json = "=1.0.151"
sha1 = "=0.10.7"
tokio = { version = "=1.53.2", features = ["rt"] }
totp-lite = "=2.0.1"
urlencoding = "=2.1.3"
uuid = { version = "=1.27.0", features = ["v4"] }
