[package]
name = "mycloud"
version = "0.1.0"
edition = "2021"
publish = false

[dependencies]
aes-gcm = "=0.10.3"
argon2 = "=0.5.3"
hkdf = "=0.12.4"
sha2 = "=0.10.9"
base64 = "=0.22.1"
bs58 = "=0.5.1"
rand = "=0.9.5"
bcrypt = "=0.17.1"
uuid = { version = "=1.29.0", features = ["v4"] }
urlencoding = "=2.1.3"
chrono = { version = "=0.4.45", features = ["serde"] }
mime_guess = "=2.0.5"
serde = { version = "=1.0.229", features = ["derive"] }
serde_json = "=1.0.154"
jsonwebtoken = "=9.3.1"
tokio = { version = "=1.54.1", features = ["full"] }
axum = { version = "=0.8.9", features = ["multipart"] }
kamadak-exif = "0.5"
tower-http = { version = "=0.6.11", features = ["cors", "trace", "fs", "compression-full"] }
sqlx = { version = "=0.8.6", default-features = false, features = ["runtime-tokio", "sqlite", "chrono", "json", "macros"] }
reqwest = { version = "=0.12.28", default-features = false, features = ["json", "stream", "rustls-tls"] }
tracing = "=0.1.44"
tracing-subscriber = { version = "=0.3.23", features = ["env-filter"] }
dotenvy = "=0.15.7"
bytesize = "=1.3.3"
image = { version = "=0.25.10", default-features = false, features = ["jpeg", "png"] }
blurhash = "=0.2.3"
futures-util = "=0.3.34"
chacha20 = "=0.9.1"
hex = "=0.4.3"
