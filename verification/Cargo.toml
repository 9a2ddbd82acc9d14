[package]
name = "image_api"
version = "0.1.0"
edition = "2021"
publish = false

[dependencies]
base64 = "=0.10.1"
url = "=2.5.8"
actix-web = { version = "=1.0.9", features = ["ssl"] }
actix-multipart = "=0.1.5"
actix-rt = "=0.2.6"
awc = { version = "=0.2.8", features = ["ssl"] }
futures = "=0.1.31"
openssl = "=0.10.82"
openssl-probe = "=0.1.6"
ctrlc = "=3.5.2"
env_logger = "=0.6.2"
libc = "=0.2.191"
time = "=0.1.43"
chrono = "=0.4.19"
