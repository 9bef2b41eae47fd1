[package]
name = "clippy_share"
version = "0.1.0"
edition = "2021"
publish = false

[dependencies]
android_logger = "*"
crossbeam-channel = "*"
futures = "*"
jni = "*"
libp2p = { version = "*", features = ["gossipsub", "mdns", "tokio", "quic", "macros", "ed25519"] }
log = "*"
once_cell = "*"
serde = { version = "1", features = ["derive"] }
serde_json = "1"
thiserror = "*"
tokio = { version = "1", features = ["full"] }
wayland-clipboard-listener = "*"
