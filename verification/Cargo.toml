[package]
name = "tmuxmux_mobile"
version = "0.1.0"
edition = "2021"
publish = false

[dependencies]
vt100-ctt = "*"
egui = { version = "=0.34.3", default-features = false, features = ["default_fonts"] }
log = "0.4"
serde = { version = "1", features = ["derive"] }
serde_json = "1"
russh = "*"
tokio = { version = "1", features = ["rt", "sync", "macros", "time"] }
