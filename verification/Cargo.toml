[package]
name = "something_bg_core"
version = "0.1.0"
edition = "2021"
publish = false

[dependencies]
chrono = { version = "0.4", features = ["serde"] }
croner = "*"
ctrlc = "*"
dirs = "*"
env_logger = "*"
gtk = "*"
humantime_fmt = "*"
log = "0.4"
muda = "*"
serde = { version = "1", features = ["derive"] }
toml = { version = "*", features = ["preserve_order"] }
tray-icon = "*"
