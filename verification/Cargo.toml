[package]
name = "netease_music_api"
version = "0.1.0"
edition = "2021"
publish = false

[dependencies]
md-5 = "=0.10.6"
aes = "=0.8.4"
cipher = { version = "=0.4.4", features = ["alloc", "block-padding"] }
ecb = "=0.1.2"
base64 = "=0.22.1"
hmac = "=0.12.1"
sha2 = "=0.10.9"
bcrypt = "=0.17.1"
url = "=2.5.8"
encoding_rs = "=0.8.44"
serde = { version = "=1.0.229", features = ["derive"] }
serde_json = "=1.0.154"
anyhow = "=1.0.104"
thiserror = "=2.0.21"
clap = { version = "=4.6.7", features = ["derive"] }
walkdir = "=2.5.0"
lofty = "=0.24.0"
fs2 = "=0.4.3"
rand = "=0.8.8"
tokio = { version = "=1.54.1", features = ["rt-multi-thread", "macros", "time", "sync", "fs", "io-util"] }
reqwest = { version = "=0.12.28", default-features = false, features = ["rustls-tls", "stream"] }
futures = "=0.3.34"
dashmap = "=6.2.1"
governor = "=0.8.1"
chrono = "=0.4.45"
tracing = "=0.1.44"
zip = { version = "=2.6.1", default-features = false, features = ["deflate"] }
uuid = { version = "=1.29.0", features = ["v4"] }
