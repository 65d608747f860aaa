[package]
name = "thermal-v2-lib"
version = "0.1.0"
edition = "2021"
publish = false

[dependencies]
base64 = "=0.22.1"
serde = { version = "=1.0.229", features = ["derive"] }
thiserror = "=2.0.21"
parking_lot = "=0.12.5"
nusb = "=0.2.9"
libc = "=0.2.191"
ndarray = "=0.17.2"
ort = { version = "=2.0.0-rc.15", default-features = false, features = ["std", "ndarray"] }
objc2 = "=0.6.5"
objc2-foundation = "=0.3.2"
objc2-av-foundation = "=0.3.2"
objc2-core-media = "=0.3.2"
objc2-core-video = "=0.3.2"
dispatch2 = "=0.3.1"
