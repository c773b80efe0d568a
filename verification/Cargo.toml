[package]
name = "star"
version = "0.1.0"
edition = "2021"
publish = false

[dependencies]
subtle = "2"
hmac = "0.12"
sha2 = "0.10"
hpke = "0.12"
chacha20poly1305 = "0.10"
rand = "0.8"
base64 = "0.22"
dcap-qvl = "*"
parity-scale-codec = "3"
dashmap = "6"
bloomfilter = "3"
redb = "*"
rusqlite = { version = "*", features = ["bundled"] }
ureq = "2"
tokio = { version = "1", features = ["rt-multi-thread"] }
