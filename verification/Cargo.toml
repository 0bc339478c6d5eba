[package]
name = "okapi"
version = "0.1.0"
edition = "2021"
publish = false

[dependencies]
bytes = "=1.12.1"
conv = "=0.3.3"
dashmap = "=5.5.3"
env_logger = "=0.10.2"
fast_image_resize = "=2.7.3"
headers = "=0.3.9"
hyper = { version = "=0.14.32", features = ["full"] }
hyper-proxy = { version = "=0.9.1", default-features = false, features = ["rustls"] }
hyper-rustls = { version = "=0.24.2", features = ["webpki-tokio", "http2"] }
image = "=0.24.9"
imageproc = "=0.23.1"
libc = "=0.2.191"
libwebp-sys = "=0.9.6"
log = "=0.4.34"
resvg = "=0.35.0"
rusttype = "=0.9.3"
serde = { version = "=1.0.229", features = ["derive"] }
serde_json = "=1.0.154"
serde_urlencoded = "=0.7.1"
tiny-skia = "=0.10.0"
tokio = { version = "=1.54.1", features = ["full"] }
