[package]
name = "embedded_tls"
version = "0.1.0"
edition = "2021"
publish = false

[dependencies]
heapless = "=0.8.0"
sha2 = { version = "=0.10.9", default-features = false }
p256 = { version = "=0.13.2", default-features = false, features = ["ecdh"] }
rand_core = { version = "=0.6.4", features = ["getrandom"] }

[dev-dependencies]
hmac = "=0.12.1"
hkdf = "=0.12.4"
