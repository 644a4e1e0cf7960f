[package]
name = "decentis"
version = "0.1.0"
edition = "2021"
publish = false

[dependencies]
anyhow = "1"
base64 = "0.22"
bitvec = "1"
blake3 = { version = "1", features = ["pure"] }
bytes = "1"
igd-next = "*"
postcard = { version = "1", features = ["alloc"] }
prost = "0.13"
quinn = { version = "0.11", default-features = false, features = ["rustls-ring", "runtime-tokio"] }
rand = "0.9"
rcgen = "*"
rustls = { version = "0.23", default-features = false, features = ["ring", "std"] }
snow = "*"
tokio = { version = "1", features = ["full"] }
tokio-stream = { version = "0.1", features = ["net"] }
tokio-util = "0.7"
tonic = "0.12"
tracing = "0.1"
tracing-subscriber = "0.3"
tun-rs = { version = "*", features = ["async"] }
uuid = { version = "1", features = ["v4"] }
