[package]
name = "screenshot_session"
version = "0.1.0"
edition = "2021"
publish = false

[dependencies]
anyhow = "*"
base64 = "*"
image = "*"
rdev = "*"
serde = { version = "*", features = ["derive"] }
xcap = "*"
