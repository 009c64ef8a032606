[package]
name = "keycast"
version = "0.1.0"
edition = "2021"
publish = false

[dependencies]
futures = "*"
libc = "*"
serde_json = "*"
tokio = { version = "*", features = ["rt", "net", "sync"] }
tokio-tungstenite = "*"
tungstenite = "*"
x11 = { version = "*", features = ["xlib"] }
