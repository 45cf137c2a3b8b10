[package]
name = "kivi"
version = "0.1.0"
edition = "2021"
publish = false

[dependencies]
async-channel = "=2.5.0"
blake3 = { version = "=1.8.7", features = ["pure"] }
bytes = "=1.12.1"
compio = { version = "=0.19.2", features = ["bytes", "h3", "quic", "ring", "runtime", "time"] }
crc32c = "=0.6.9"
futures = "=0.3.34"
http = "=1.5.0"
openraft = { version = "=0.9.25", features = ["storage-v2"] }
rcgen = "=0.14.10"
rustls = { version = "=0.23.46", default-features = false, features = ["ring", "std", "tls12"] }
thiserror = "=2.0.21"
tracing = "=0.1.44"
