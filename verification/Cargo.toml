[package]
name = "shadow_os"
version = "0.1.0"
edition = "2021"
publish = false

[dependencies]
anyhow = "=1.0.104"
chrono = "=0.4.45"
drm = "=0.14.1"
evdev = "0.13"
font8x8 = "=0.3.1"
libc = "=0.2.191"
nostr = { version = "=0.44.8", default-features = false, features = ["std"] }
nostr-sdk = "=0.44.1"
qrcodegen = "=1.8.0"
serde = { version = "=1.0.229", features = ["derive"] }
serde_json = "=1.0.154"
tokio = { version = "=1.54.1", features = ["rt", "time"] }
