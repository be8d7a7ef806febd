[package]
name = "avatarplugin"
version = "0.1.0"
edition = "2021"
publish = false

[dependencies]
serde = { version = "=1.0.229", features = ["derive"] }
serde_json = "=1.0.154"
image = { version = "=0.25.10", default-features = false, features = ["png", "jpeg"] }
evdev = "=0.13.2"
libc = "=0.2.191"
thiserror = "=2.0.21"
paste = "1"
