[package]
name = "beam"
version = "0.1.0"
edition = "2021"
publish = false

[dependencies]
anyhow = "=1.0.104"
async-trait = "=0.1.92"
async_zip = { version = "=0.0.17", features = ["tokio", "deflate"] }
axum = { version = "=0.8.9", features = ["ws"] }
axum-server = { version = "=0.8.0", features = ["tls-rustls"] }
base64 = "=0.22.1"
bytes = "=1.12.1"
clap = { version = "=4.6.7", features = ["derive"] }
clap_complete = "=4.6.11"
futures-util = { version = "=0.3.34", features = ["io", "sink"] }
hex = "=0.4.3"
humantime = "=2.4.0"
indicatif = "=0.18.6"
qrcode = { version = "=0.14.1", default-features = false }
rand = "=0.8.8"
rcgen = { version = "=0.14.10", default-features = false, features = ["pem", "ring"] }
regex = "=1.13.1"
reqwest = { version = "=0.12.28", default-features = false, features = ["json", "rustls-tls", "stream"] }
serde = { version = "=1.0.229", features = ["derive"] }
serde_json = "=1.0.154"
sha2 = "=0.10.9"
tokio = { version = "=1.54.1", features = ["full"] }
tokio-stream = "=0.1.19"
tokio-tungstenite = { version = "=0.26.2", features = ["rustls-tls-webpki-roots"] }
tokio-util = { version = "=0.7.20", features = ["compat", "io"] }
tracing = "=0.1.44"
tracing-subscriber = { version = "=0.3.23", features = ["env-filter"] }
url = "=2.5.8"
