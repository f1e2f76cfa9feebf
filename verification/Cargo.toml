[package]
name = "openrgb-dark-controller"
version = "0.1.0"
edition = "2021"
publish = false

[dependencies]
anyhow = "1"
clap = { version = "4", features = ["derive"] }
env_logger = "*"
futures-util = "*"
log = "*"
openrgb2 = "*"
tokio = { version = "1", features = ["full"] }
zbus = "*"
wayland-client = "0.31"
wayland-scanner = "0.31"
wayland-protocols-wlr = { version = "*", features = ["client"] }
wayland-protocols-plasma = { version = "*", features = ["client"] }
