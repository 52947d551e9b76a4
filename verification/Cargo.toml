[package]
name = "claw"
version = "0.1.0"
edition = "2021"
publish = false

[dependencies]
uuid = { version = "*", features = ["v4"] }
chrono = "*"
serde = { version = "*", features = ["derive"] }
serde_json = "*"
dirs = "*"
regex = "*"
notify = "*"
wl-clipboard-rs = "*"
x11-clipboard = "*"
rune-cfg = "*"
