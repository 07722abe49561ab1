[package]
name = "sapphire_wm"
version = "0.1.0"
edition = "2021"
publish = false

[dependencies]
xcb = "0.9"
xcb-util = { version = "0.3", features = ["ewmh", "icccm", "keysyms"] }
x11 = { version = "2", features = ["xlib"] }
dyn-clone = "1"
log = "0.4"
env_logger = "0.10"
