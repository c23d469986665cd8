[package]
name = "sidecar"
version = "0.1.0"
edition = "2021"
publish = false

[dependencies]
x11rb-protocol = { version = "0.13", features = ["request-parsing", "dpms", "screensaver", "xfixes"] }
libc = "0.2"
flate2 = "1"
