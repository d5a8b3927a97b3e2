[package]
name = "stump"
version = "0.1.0"
edition = "2021"
publish = false

[dependencies]
aes-gcm = "0.10"
p256 = { version = "0.13", features = ["ecdh"] }
hkdf = "0.12"
sha2 = "0.10"
base64 = "0.22"
quick-xml = "0.37"
chrono = "0.4"
zip = { version = "2", default-features = false, features = ["deflate"] }
sea-query = "0.32"
serde = { version = "1", features = ["derive"] }
serde_json = "1"
thiserror = "2"
tokio = { version = "1", features = ["sync", "time", "rt", "macros"] }
image = { version = "0.25", default-features = false, features = ["png"] }
ab_glyph = "0.2"
