[package]
name = "remote-desktop"
version = "0.1.0"
edition = "2021"
publish = false

[dependencies]
anyhow = "1"
arboard = { version = "3", default-features = false }
blake3 = "1"
bytes = "1"
eframe = { version = "*", default-features = false, features = ["default_fonts", "wgpu", "x11"] }
postcard = { version = "1", features = ["alloc"] }
rand = "*"
rfd = "*"
serde = { version = "1", features = ["derive"] }
serde_json = "1"
thiserror = "2"
tokio = { version = "1", features = ["rt-multi-thread", "macros", "sync", "time"] }
tracing = "0.1"
tracing-subscriber = { version = "0.3", features = ["env-filter"] }
