[package]
name = "jpixel"
version = "0.1.0"
edition = "2021"
publish = false

[dependencies]
base64 = "=0.22.1"
urlencoding = "=2.1.3"
image = { version = "=0.24.9", default-features = false, features = ["png", "bmp", "gif"] }
imageproc = { version = "=0.23.1", default-features = false }
gif = "=0.13.3"
serde = { version = "=1.0.229", features = ["derive"] }
serde_json = "=1.0.154"
time = { version = "=0.3.55", features = ["local-offset", "formatting", "parsing"] }
thiserror = "=1.0.69"
log = "=0.4.35"
env_logger = "=0.11.11"
arboard = "3"
single-instance = "0.3"
raw-window-handle = "0.6"
