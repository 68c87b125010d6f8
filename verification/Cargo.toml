[package]
name = "image_mirror"
version = "0.1.0"
edition = "2021"
publish = false

[dependencies]
actix-web = "=4.18.1"
base64 = "=0.22.1"
flume = "=0.11.1"
hex = "=0.4.3"
hmac = "=0.12.1"
image = { version = "=0.25.10", default-features = false, features = ["png", "jpeg", "gif", "webp", "bmp", "tiff", "ico"] }
libc = "=0.2.191"
reqwest = { version = "=0.12.28", features = ["blocking"] }
serde = { version = "=1.0.229", features = ["derive"] }
sha2 = "=0.10.9"
tikv-jemalloc-ctl = { version = "=0.6.1", features = ["stats"] }
tikv-jemalloc-sys = "=0.6.1"
tikv-jemallocator = "=0.6.1"
tokio = { version = "=1.54.1", features = ["rt"] }
url = "=2.5.8"
webp = "=0.3.1"
