[package]
name = "ttui"
version = "0.1.0"
edition = "2021"
publish = false

[dependencies]
base64 = "0.22"
clap = { version = "4", features = ["derive"] }
crossterm = "*"
font8x8 = "*"
image = { version = "*", default-features = false, features = ["png", "gif"] }
portable-pty = "*"
serde = { version = "1", features = ["derive"] }
serde_json = "1"
unicode-width = "*"
ureq = { version = "2", default-features = false }
vt100 = "*"
