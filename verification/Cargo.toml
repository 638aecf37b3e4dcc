[package]
name = "vop_download"
version = "0.1.0"
edition = "2021"
publish = false

[dependencies]
aes = "0.8"
anyhow = "1"
cbc = { version = "0.1", features = ["alloc"] }
crossbeam = "0.8"
log = "0.4"
m3u8-rs = "*"
moka = { version = "0.12", features = ["sync"] }
reqwest = { version = "*", default-features = false }
serde = { version = "1", features = ["derive"] }
serde_json = "1"
tokio = { version = "1", features = ["full"] }
tungstenite = "*"
url = "2"
uuid = { version = "1", features = ["v4"] }
