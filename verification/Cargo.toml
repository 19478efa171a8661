[package]
name = "schrottbar"
version = "0.1.0"
edition = "2021"
publish = false

[dependencies]
regex = "1"
chrono = "0.4"
tokio = { version = "1", features = ["full"] }
reqwest = { version = "0.12", default-features = false, features = ["json"] }
async-trait = "0.1"
futures = "0.3"
log = "0.4"
simplelog = "0.12"
serde = { version = "1", features = ["derive"] }
serde_json = "1"
niri-ipc = "*"
zbus = "5"
png = "0.17"
sysinfo = "*"
inotify = "0.11"
dirs = "6"
tiny-skia = "0.11"
cosmic-text = "0.12"
smithay-client-toolkit = { version = "0.19", default-features = false }
wayland-client = "0.31"
