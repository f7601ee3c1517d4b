[package]
name = "algovoi-rfc9421-verifier"
version = "0.1.0"
edition = "2021"
publish = false

[dependencies]
base64 = "=0.22.1"
ed25519-dalek = "=2.2.0"
num-bigint = "=0.4.8"
p256 = "=0.13.2"
p384 = "=0.13.1"
sec1 = { version = "=0.7.3", default-features = false }
sha2 = "=0.10.9"
thiserror = "=1.0.69"

[dev-dependencies]
hex = "=0.4.3"
rand_core = { version = "=0.6.4", features = ["getrandom"] }
