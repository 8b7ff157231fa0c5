[package]
name = "wdtt_rslib"
version = "0.1.0"
edition = "2021"
publish = false

[dependencies]
anyhow = "=1.0.104"
async-trait = "=0.1.92"
base64 = "=0.22.1"
chacha20poly1305 = "=0.10.1"
hex = "=0.4.3"
hkdf = "=0.12.4"
image = { version = "=0.25.10", default-features = false, features = ["png", "jpeg"] }
rand = "=0.8.8"
rayon = "=1.12.0"
regex = "=1.13.1"
reqwest = { version = "=0.12.28", default-features = false, features = ["rustls-tls"] }
serde = { version = "=1.0.229", features = ["derive"] }
serde_json = "=1.0.154"
sha2 = "=0.10.9"
tokio = { version = "=1.54.1", features = ["full"] }
tokio-util = "=0.7.20"
turn = "=0.10.0"
url = "=2.5.8"
uuid = { version = "=1.29.0", features = ["v4"] }
webrtc-dtls = "=0.12.0"
webrtc-util = "=0.11.0"
