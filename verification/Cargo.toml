[package]
name = "watari"
version = "0.1.0"
edition = "2021"
publish = false

[dependencies]
anyhow = "1"
env_logger = "0.11"
log = "0.4"
wl-clipboard-rs = "0.9"
x11rb = { version = "0.13", features = ["xfixes"] }
