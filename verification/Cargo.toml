[package]
name = "did_profiles"
version = "0.1.0"
edition = "2021"
publish = false

[dependencies]
bs58 = "=0.4.0"
chrono = { version = "=0.4.45", features = ["serde"] }
did_doc = "=0.3.1"
ed25519-dalek = "=1.0.1"
hc_utils = "=0.5.3"
hdk = "=0.5.6"
hex = "=0.4.3"
holochain_serialized_bytes = "=0.0.56"
secp256k1 = "=0.20.3"
serde = { version = "=1.0.219", features = ["derive"] }
