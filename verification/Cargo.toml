[package]
name = "screen-watch"
version = "0.1.0"
edition = "2021"
publish = false

[dependencies]
image = { version = "0.25", default-features = false, features = ["png"] }
serde = { version = "1", features = ["derive"] }
toml = "0.8"
xcap = "*"
minifb = "*"
native-windows-gui = "1"
tray-icon = "*"
notify-rust = "4"
