[package]
name = "forgetty"
version = "0.1.0"
edition = "2021"
publish = false

[dependencies]
arboard = { version = "3", default-features = false }
base64 = "0.22"
bytes = "1"
dirs = "6"
hostname = "0.4"
image = { version = "0.25", default-features = false, features = ["png"] }
libc = "0.2"
portable-pty = "0.9"
pulldown-cmark = { version = "0.13", default-features = false, features = ["html"] }
qrcode = { version = "0.14", default-features = false, features = ["image"] }
rand = "0.9"
rmp-serde = "1"
serde = { version = "1", features = ["derive"] }
serde_json = "1"
tokio = { version = "1", features = ["full"] }
tracing = "0.1"
uuid = { version = "1", features = ["v4"] }
