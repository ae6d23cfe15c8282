[package]
name = "vpanel_core"
version = "0.1.0"
edition = "2021"
publish = false

[dependencies]
base64 = "*"
image = { version = "*", default-features = false, features = ["png"] }
serde = { version = "*", features = ["derive"] }
serde_json = "*"
tokio = { version = "*", features = ["rt-multi-thread", "macros", "sync", "fs", "time"] }
futures-util = "*"
x11rb = "*"
zbus = "*"
wayland-client = "*"
wayland-protocols-wlr = { version = "*", features = ["client"] }
wayland-protocols-plasma = { version = "*", features = ["client"] }
