[package]
name = "ghostcrypt-crypto"
version = "0.1.0"
edition = "2021"
publish = false

[dependencies]
aes-gcm = "0.10"
base64 = "0.22"
ed25519-dalek = { version = "2", features = ["rand_core"] }
hkdf = "0.12"
hmac = "0.12"
ml-kem = "0.2"
openmls = "0.6"
openmls_basic_credential = "0.3"
openmls_rust_crypto = "0.3"
openmls_traits = "0.3"
rand = "0.8"
serde = { version = "1", features = ["derive"] }
serde_json = "1"
sha2 = "0.10"
thiserror = "1"
tls_codec = "0.4"
wasm-bindgen = "0.2"
x25519-dalek = { version = "2", features = ["static_secrets"] }
