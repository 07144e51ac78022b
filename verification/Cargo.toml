[package]
name = "herald_mcserver"
version = "0.1.0"
edition = "2021"
publish = false

[dependencies]
anyhow = "=1.0.104"
argon2 = "=0.5.3"
axum = { version = "=0.7.9", features = ["multipart", "ws"] }
base32 = "=0.5.1"
directories = "=5.0.1"
flate2 = "=1.1.10"
futures = "=0.3.34"
hex = "=0.4.3"
mime_guess = "=2.0.5"
parking_lot = "=0.12.5"
rand = "=0.8.8"
rand_core = { version = "=0.6.4", features = ["getrandom"] }
reqwest = { version = "=0.12.28", default-features = false, features = ["json", "stream", "rustls-tls"] }
rusqlite = { version = "=0.31.0", features = ["bundled"] }
serde = { version = "=1.0.229", features = ["derive"] }
serde_json = "=1.0.154"
sha2 = "=0.10.9"
tar = "=0.4.46"
thiserror = "=1.0.69"
time = { version = "=0.3.55", features = ["formatting"] }
tokio = { version = "=1.54.1", features = ["full"] }
toml = "=0.8.23"
tower-cookies = "=0.10.0"
tower-http = { version = "=0.5.2", features = ["trace"] }
tracing = "=0.1.44"
tracing-subscriber = { version = "=0.3.23", features = ["env-filter"] }
uuid = { version = "=1.29.0", features = ["v4"] }
which = "=8.0.6"
zeroize = "=1.9.1"
zip = { version = "=2.6.1", default-features = false, features = ["deflate"] }
