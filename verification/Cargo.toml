[package]
name = "dpop_verifier"
version = "2.0.0"
edition = "2021"
publish = false

[dependencies]
async-trait = "0.1"
base64 = "0.22"
ed25519-dalek = { version = "2", features = ["rand_core"] }
hmac = "0.12"
p256 = { version = "0.13", features = ["ecdsa"] }
rand_core = { version = "0.6", features = ["getrandom"] }
secrecy = "0.10"
serde = { version = "1", features = ["derive"] }
serde_json = "1"
sha2 = "0.10"
signature = "2"
subtle = "2"
time = "0.3"
url = "2"
