[package]
name = "drumbox64"
version = "0.1.0"
edition = "2021"
publish = false

[dependencies]
hound = "=3.5.1"
midir = "=0.10.4"
usbsid-pico = "=0.1.14"
iced = { version = "=0.14.0", default-features = false, features = ["tiny-skia", "tokio", "x11"] }
rfd = { version = "=0.15.4", default-features = false, features = ["xdg-portal", "tokio"] }
