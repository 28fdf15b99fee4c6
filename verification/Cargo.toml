[package]
name = "clipboard_bridge"
version = "0.1.0"
edition = "2021"
publish = false

[dependencies]
anyhow = "1"
base64 = "0.22"
clap = { version = "4", features = ["derive"] }
crossbeam-channel = "0.5"
dirs = "6"
hex = "0.4"
hmac = "0.12"
mdns-sd = "*"
png = "0.18"
rand = "0.9"
rustix = { version = "1", features = ["fs", "pipe"] }
serde = { version = "1", features = ["derive"] }
serde_json = "1"
sha2 = "0.10"
toml = "0.8"
wayland-client = "0.31"
wayland-protocols-wlr = { version = "0.3", features = ["client"] }
