[package]
name = "gyroflow_core"
version = "0.1.0"
edition = "2021"
publish = false

[dependencies]
quick-xml = "=0.42.0"
xml-rs = "=0.8.29"
serde = { version = "=1.0.229", features = ["derive"] }
serde_json = "=1.0.154"
simple-easing = "=1.1.1"
app_dirs2 = "=2.5.5"
parking_lot = "=0.13.0"
log = "=0.4.35"
lensfun = "=0.7.0"
libc = "0.2"
rayon = "1"
